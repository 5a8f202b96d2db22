//! Messages to and from a language model, and the assembly of a reply that
//! arrives as a stream of deltas.

use crate::json::Json;
use crate::split::{
    find_from, is_space, law_pieces_stand_between_separators, lemma_find_from, lemma_texts_push, pieces, split_char, texts, trim, trim_end, trim_start, trimmed,
};
use crate::text::str_eq;
use crate::version::opt_text;
use std::collections::BTreeMap;
use vstd::prelude::*;
use vstd::std_specs::btree::increasing_seq;
use vstd::std_specs::cmp::OrdSpec;
use vstd::std_specs::iter::IteratorSpec;
use vstd::string::*;

verus! {

/// A message of a conversation.
#[derive(Debug, Clone)]
pub struct ChatMessage {
    pub role: String,
    pub content: Option<String>,
    pub tool_calls: Option<Vec<ToolCall>>,
    pub tool_call_id: Option<String>,
}

/// A call that the model asks for.
#[derive(Debug, Clone)]
pub struct ToolCall {
    pub id: String,
    pub type_: String,
    pub function: FunctionCall,
}

#[derive(Debug, Clone)]
pub struct FunctionCall {
    pub name: String,
    pub arguments: String,
}

/// The content of a `ToolCall`.
pub ghost struct Call {
    pub id: Seq<char>,
    pub type_: Seq<char>,
    pub name: Seq<char>,
    pub arguments: Seq<char>,
}

impl View for ToolCall {
    type V = Call;

    open spec fn view(&self) -> Call {
        Call {
            id: self.id@,
            type_: self.type_@,
            name: self.function.name@,
            arguments: self.function.arguments@,
        }
    }
}

/// The contents of a list of calls.
pub open spec fn calls(v: Seq<ToolCall>) -> Seq<Call> {
    Seq::new(v.len(), |i: int| v[i]@)
}

/// The content of a `ChatMessage`.
pub ghost struct Message {
    pub role: Seq<char>,
    pub content: Option<Seq<char>>,
    pub tool_calls: Option<Seq<Call>>,
    pub tool_call_id: Option<Seq<char>>,
}

impl View for ChatMessage {
    type V = Message;

    open spec fn view(&self) -> Message {
        Message {
            role: self.role@,
            content: opt_text(self.content),
            tool_calls: match self.tool_calls {
                Some(v) => Some(calls(v@)),
                None => None,
            },
            tool_call_id: opt_text(self.tool_call_id),
        }
    }
}

/// A message that only says something.
pub open spec fn plain_message(role: Seq<char>, content: Seq<char>) -> Message {
    Message { role, content: Some(content), tool_calls: None, tool_call_id: None }
}

/// The answer to a tool call.
pub open spec fn tool_message(content: Seq<char>, tool_call_id: Seq<char>) -> Message {
    Message { tool_call_id: Some(tool_call_id), ..plain_message("tool"@, content) }
}

impl ChatMessage {
    pub fn system(content: &str) -> (m: ChatMessage)
        ensures
            m@ == plain_message("system"@, content@),
    {
        ChatMessage {
            role: "system".to_owned(),
            content: Some(content.to_owned()),
            tool_calls: None,
            tool_call_id: None,
        }
    }

    pub fn user(content: &str) -> (m: ChatMessage)
        ensures
            m@ == plain_message("user"@, content@),
    {
        ChatMessage {
            role: "user".to_owned(),
            content: Some(content.to_owned()),
            tool_calls: None,
            tool_call_id: None,
        }
    }

    pub fn tool(content: &str, tool_call_id: &str) -> (m: ChatMessage)
        ensures
            m@ == tool_message(content@, tool_call_id@),
    {
        ChatMessage {
            role: "tool".to_owned(),
            content: Some(content.to_owned()),
            tool_calls: None,
            tool_call_id: Some(tool_call_id.to_owned()),
        }
    }
}

impl ToolCall {
    /// A copy of the call.
    pub fn copy(&self) -> (c: ToolCall)
        ensures
            c@ == self@,
    {
        ToolCall {
            id: self.id.clone(),
            type_: self.type_.clone(),
            function: FunctionCall {
                name: self.function.name.clone(),
                arguments: self.function.arguments.clone(),
            },
        }
    }
}

/// A tool that the model may call.
#[derive(Debug)]
pub struct ToolDefinition {
    pub type_: String,
    pub function: FunctionDefinition,
}

#[derive(Debug)]
pub struct FunctionDefinition {
    pub name: String,
    pub description: String,
    pub parameters: Json,
}

/// A complete reply.
#[derive(Debug)]
pub struct ChatResponse {
    pub choices: Vec<Choice>,
}

#[derive(Debug)]
pub struct Choice {
    pub message: ChatMessage,
    pub finish_reason: Option<String>,
}

/// A piece of a reply that is streamed.
#[derive(Debug)]
pub struct StreamChunk {
    pub choices: Vec<StreamChoice>,
}

#[derive(Debug)]
pub struct StreamChoice {
    pub delta: StreamDelta,
    pub finish_reason: Option<String>,
}

#[derive(Debug, Clone)]
pub struct StreamDelta {
    pub role: Option<String>,
    pub content: Option<String>,
    pub reasoning_content: Option<String>,
    pub tool_calls: Option<Vec<StreamToolCall>>,
}

#[derive(Debug, Clone)]
pub struct StreamToolCall {
    pub index: Option<usize>,
    pub id: Option<String>,
    pub type_: Option<String>,
    pub function: Option<StreamFunctionCall>,
}

#[derive(Debug, Clone)]
pub struct StreamFunctionCall {
    pub name: Option<String>,
    pub arguments: Option<String>,
}

/// What is told of a stream while it arrives.
#[derive(Debug, Clone)]
pub enum StreamEvent {
    Reasoning(String),
    Content(String),
    ToolCallStart { id: String, name: String },
    ToolCallArgDelta(String),
    Done,
    Error(String),
}

/// The content of a `StreamEvent`.
pub ghost enum Event {
    Reasoning(Seq<char>),
    Content(Seq<char>),
    ToolCallStart { id: Seq<char>, name: Seq<char> },
    ToolCallArgDelta(Seq<char>),
    Done,
    Error(Seq<char>),
}

impl View for StreamEvent {
    type V = Event;

    open spec fn view(&self) -> Event {
        match self {
            StreamEvent::Reasoning(s) => Event::Reasoning(s@),
            StreamEvent::Content(s) => Event::Content(s@),
            StreamEvent::ToolCallStart { id, name } => Event::ToolCallStart {
                id: id@,
                name: name@,
            },
            StreamEvent::ToolCallArgDelta(s) => Event::ToolCallArgDelta(s@),
            StreamEvent::Done => Event::Done,
            StreamEvent::Error(s) => Event::Error(s@),
        }
    }
}

/// The contents of a list of events.
pub open spec fn events(v: Seq<StreamEvent>) -> Seq<Event> {
    Seq::new(v.len(), |i: int| v[i]@)
}

pub(crate) fn push_event(v: &mut Vec<StreamEvent>, e: StreamEvent)
    ensures
        events(final(v)@) == events(old(v)@).push(e@),
{
    v.push(e);
    assert(events(v@) =~= events(old(v)@).push(e@));
}

/// What a delta says of a tool call.
pub ghost struct Delta {
    pub index: usize,
    pub id: Option<Seq<char>>,
    pub type_: Seq<char>,
    pub name: Seq<char>,
    pub arguments: Option<Seq<char>>,
}

impl View for StreamToolCall {
    type V = Delta;

    /// Where a delta leaves something open: the first call, an ordinary
    /// function, no name.
    open spec fn view(&self) -> Delta {
        Delta {
            index: match self.index {
                Some(i) => i,
                None => 0,
            },
            id: opt_text(self.id),
            type_: match self.type_ {
                Some(t) => t@,
                None => "function"@,
            },
            name: match self.function {
                Some(f) => match f.name {
                    Some(n) => n@,
                    None => Seq::empty(),
                },
                None => Seq::empty(),
            },
            arguments: match self.function {
                Some(f) => opt_text(f.arguments),
                None => None,
            },
        }
    }
}

/// The calls that are being put together, by their index.
pub open spec fn call_map(m: Map<usize, ToolCall>) -> Map<usize, Call> {
    m.map_values(|c: ToolCall| c@)
}

/// The calls after a delta with an identifier has opened its call, or named it.
/// What was said first stands.
pub open spec fn opened(p: Map<usize, Call>, d: Delta) -> Map<usize, Call> {
    match d.id {
        None => p,
        Some(id) => if !p.contains_key(d.index) {
            p.insert(
                d.index,
                Call { id, type_: d.type_, name: d.name, arguments: Seq::empty() },
            )
        } else if d.name.len() > 0 && p[d.index].name.len() == 0 {
            p.insert(d.index, Call { name: d.name, ..p[d.index] })
        } else {
            p
        },
    }
}

/// The calls after a delta: its arguments are added to those of its call.
pub open spec fn delta_applied(p: Map<usize, Call>, d: Delta) -> Map<usize, Call> {
    let q = opened(p, d);
    match d.arguments {
        Some(a) => if q.contains_key(d.index) {
            q.insert(d.index, Call { arguments: q[d.index].arguments + a, ..q[d.index] })
        } else {
            q
        },
        None => q,
    }
}

/// What a delta has to be reported as.
pub open spec fn delta_events(p: Map<usize, Call>, d: Delta) -> Seq<Event> {
    (match d.id {
        Some(id) if !p.contains_key(d.index) => seq![Event::ToolCallStart { id, name: d.name }],
        _ => Seq::empty(),
    }) + (match d.arguments {
        Some(a) => seq![Event::ToolCallArgDelta(a)],
        None => Seq::empty(),
    })
}

/// What a delta began and what it added.
pub struct ToolCallUpdate {
    pub start: Option<(String, String)>,
    pub arg_delta: Option<String>,
}

/// Adds a delta to the calls that are being put together.
pub fn apply_tool_call_delta(
    pending_tool_calls: &mut BTreeMap<usize, ToolCall>,
    tc: StreamToolCall,
) -> (update: ToolCallUpdate)
    ensures
        call_map(final(pending_tool_calls)@) == delta_applied(
            call_map(old(pending_tool_calls)@),
            tc@,
        ),
        update.start is Some <==> tc.id is Some && !old(pending_tool_calls)@.contains_key(
            tc@.index,
        ),
        update.start is Some ==> update.start->Some_0.0@ == tc.id->Some_0@
            && update.start->Some_0.1@ == tc@.name,
        opt_text(update.arg_delta) == tc@.arguments,
{
    let idx: usize = match tc.index {
        Some(i) => i,
        None => 0,
    };
    let name = match &tc.function {
        Some(f) => match &f.name {
            Some(n) => n.clone(),
            None => String::new(),
        },
        None => String::new(),
    };
    let args = match &tc.function {
        Some(f) => f.arguments.clone(),
        None => None,
    };
    let mut start: Option<(String, String)> = None;
    let ghost before = call_map(pending_tool_calls@);
    match tc.id {
        Some(id) => {
            let found = match pending_tool_calls.get(&idx) {
                Some(c) => Some(c.copy()),
                None => None,
            };
            match found {
                None => {
                    let type_ = match tc.type_ {
                        Some(t) => t,
                        None => "function".to_owned(),
                    };
                    let call = ToolCall {
                        id: id.clone(),
                        type_,
                        function: FunctionCall { name: name.clone(), arguments: String::new() },
                    };
                    let _ = pending_tool_calls.insert(idx, call);
                    start = Some((id, name));
                },
                Some(mut call) => {
                    if name.as_str().unicode_len() > 0 && call.function.name.as_str().unicode_len()
                        == 0 {
                        call.function.name = name;
                        let _ = pending_tool_calls.insert(idx, call);
                    }
                },
            }
        },
        None => {},
    }
    assert(call_map(pending_tool_calls@) =~= opened(before, tc@));
    let ghost middle = call_map(pending_tool_calls@);
    match &args {
        Some(a) => {
            let found = match pending_tool_calls.get(&idx) {
                Some(c) => Some(c.copy()),
                None => None,
            };
            match found {
                Some(mut call) => {
                    call.function.arguments.append(a.as_str());
                    let _ = pending_tool_calls.insert(idx, call);
                },
                None => {},
            }
        },
        None => {},
    }
    assert(call_map(pending_tool_calls@) =~= delta_applied(before, tc@));
    ToolCallUpdate { start, arg_delta: args }
}

/// The data of a line of the stream; empty lines and the end mark have none.
pub open spec fn line_data(line: Seq<char>) -> Option<Seq<char>> {
    let t = trimmed(line);
    if t.len() == 0 || t == "data: [DONE]"@ {
        None
    } else if t.len() >= 6 && t.take(6) == "data: "@ {
        Some(t.skip(6))
    } else {
        Some(t)
    }
}

/// The data of a line of the stream.
pub fn read_line(line: &str) -> (r: Option<String>)
    ensures
        opt_text(r) == line_data(line@),
{
    let t = trim(line);
    let n: usize = t.as_str().unicode_len();
    if n == 0 || str_eq(t.as_str(), "data: [DONE]") {
        return None;
    }
    if n >= 6 {
        let head = t.as_str().substring_char(0, 6);
        assert(head@ =~= t@.take(6));
        if str_eq(head, "data: ") {
            let rest = t.as_str().substring_char(6, n);
            assert(rest@ =~= t@.skip(6));
            return Some(rest.to_owned());
        }
    }
    Some(t)
}

/// The data of lines, in their order.
pub open spec fn data_of(lines: Seq<Seq<char>>) -> Seq<Seq<char>>
    decreases lines.len(),
{
    if lines.len() == 0 {
        Seq::empty()
    } else {
        match line_data(lines.last()) {
            Some(d) => data_of(lines.drop_last()).push(d),
            None => data_of(lines.drop_last()),
        }
    }
}

/// What the deltas of a choice's tool calls do to the pending calls.
pub open spec fn deltas_applied(p: Map<usize, Call>, d: Seq<StreamToolCall>) -> Map<usize, Call>
    decreases d.len(),
{
    if d.len() == 0 {
        p
    } else {
        delta_applied(deltas_applied(p, d.drop_last()), d.last()@)
    }
}

/// What the deltas of a choice's tool calls are reported as.
pub open spec fn deltas_events(p: Map<usize, Call>, d: Seq<StreamToolCall>) -> Seq<Event>
    decreases d.len(),
{
    if d.len() == 0 {
        Seq::empty()
    } else {
        deltas_events(p, d.drop_last()) + delta_events(
            deltas_applied(p, d.drop_last()),
            d.last()@,
        )
    }
}

/// A reply as far as it has arrived.
pub ghost struct Assembly {
    /// The text after the last line end.
    pub rest: Seq<char>,
    pub content: Seq<char>,
    pub calls: Map<usize, Call>,
}

impl Assembly {
    /// The reply after text has arrived, and the data of the lines that are
    /// complete.
    pub open spec fn after_text(self, text: Seq<char>) -> (Assembly, Seq<Seq<char>>) {
        let all = pieces(self.rest + text, '\n');
        (Assembly { rest: all.last(), ..self }, data_of(all.drop_last()))
    }

    /// The reply after a choice.
    pub open spec fn after_choice(self, d: StreamDelta) -> Assembly {
        Assembly {
            content: match d.content {
                Some(c) => self.content + c@,
                None => self.content,
            },
            calls: match d.tool_calls {
                Some(t) => deltas_applied(self.calls, t@),
                None => self.calls,
            },
            ..self
        }
    }

    /// What a choice is reported as: reasoning, content, then the tool calls.
    pub open spec fn choice_events(self, d: StreamDelta) -> Seq<Event> {
        (match d.reasoning_content {
            Some(r) => seq![Event::Reasoning(r@)],
            None => Seq::empty(),
        }) + (match d.content {
            Some(c) => seq![Event::Content(c@)],
            None => Seq::empty(),
        }) + (match d.tool_calls {
            Some(t) => deltas_events(self.calls, t@),
            None => Seq::empty(),
        })
    }

    /// The reply and the events after the choices of a chunk.
    pub open spec fn after_chunk(self, choices: Seq<StreamChoice>) -> (Assembly, Seq<Event>)
        decreases choices.len(),
    {
        if choices.len() == 0 {
            (self, Seq::empty())
        } else {
            let before = self.after_chunk(choices.drop_last());
            let d = choices.last().delta;
            (before.0.after_choice(d), before.1 + before.0.choice_events(d))
        }
    }
}

/// Whether calls stand in the order of their indices.
pub open spec fn in_index_order(v: Seq<Call>, m: Map<usize, Call>) -> bool {
    exists|keys: Seq<usize>|
        {
            &&& #[trigger] increasing_seq(keys)
            &&& keys.to_set() == m.dom()
            &&& keys.no_duplicates()
            &&& v == Seq::new(keys.len(), |i: int| m[keys[i]])
        }
}

/// A reply that is being put together.
pub struct StreamAssembler {
    rest: String,
    content: String,
    pending: BTreeMap<usize, ToolCall>,
}

impl View for StreamAssembler {
    type V = Assembly;

    closed spec fn view(&self) -> Assembly {
        Assembly { rest: self.rest@, content: self.content@, calls: call_map(self.pending@) }
    }
}

impl StreamAssembler {
    pub fn new() -> (a: StreamAssembler)
        ensures
            a@ == (Assembly {
                rest: Seq::empty(),
                content: Seq::empty(),
                calls: Map::empty(),
            }),
    {
        let a = StreamAssembler {
            rest: String::new(),
            content: String::new(),
            pending: BTreeMap::new(),
        };
        assert(a@.calls =~= Map::empty());
        a
    }

    /// Takes in text as it arrives and gives out the data of the lines that are
    /// complete.
    pub fn feed(&mut self, text: &str) -> (r: Vec<String>)
        ensures
            (final(self)@, texts(r@)) == old(self)@.after_text(text@),
    {
        let mut buf = self.rest.clone();
        buf.append(text);
        let all = split_char(buf.as_str(), '\n');
        let ghost p = texts(all@);
        let n: usize = all.len() - 1;
        let mut r: Vec<String> = Vec::new();
        let mut i: usize = 0;
        assert(texts(r@) =~= data_of(p.take(0)));
        while i < n
            invariant
                i <= n,
                n == all@.len() - 1,
                p == texts(all@),
                texts(r@) == data_of(p.take(i as int)),
            decreases n - i,
        {
            assert(p.take(i + 1).drop_last() =~= p.take(i as int));
            assert(p.take(i + 1).last() == all@[i as int]@);
            match read_line(all[i].as_str()) {
                Some(d) => {
                    proof {
                        lemma_texts_push(r@, d);
                    }
                    r.push(d);
                },
                None => {},
            }
            i += 1;
        }
        assert(p.take(n as int) =~= p.drop_last());
        assert(p.last() == all@[n as int]@);
        self.rest = all[n].clone();
        r
    }

    /// Takes in one choice of a chunk.
    fn apply_choice(&mut self, delta: &StreamDelta, out: &mut Vec<StreamEvent>)
        ensures
            final(self)@ == old(self)@.after_choice(*delta),
            events(final(out)@) == events(old(out)@) + old(self)@.choice_events(*delta),
    {
        let ghost start = self@;
        let ghost base = events(out@);
        match &delta.reasoning_content {
            Some(r) => push_event(out, StreamEvent::Reasoning(r.clone())),
            None => {},
        }
        match &delta.content {
            Some(c) => {
                self.content.append(c.as_str());
                push_event(out, StreamEvent::Content(c.clone()));
            },
            None => {},
        }
        let ghost head = events(out@);
        assert(head =~= base + (match delta.reasoning_content {
            Some(r) => seq![Event::Reasoning(r@)],
            None => Seq::empty(),
        }) + (match delta.content {
            Some(c) => seq![Event::Content(c@)],
            None => Seq::empty(),
        }));
        match &delta.tool_calls {
            Some(t) => {
                let mut i: usize = 0;
                assert(t@.take(0).len() == 0);
                assert(events(out@) =~= head + deltas_events(start.calls, t@.take(0)));
                while i < t.len()
                    invariant
                        i <= t@.len(),
                        self@.rest == start.rest,
                        self@.content == (match delta.content {
                            Some(c) => start.content + c@,
                            None => start.content,
                        }),
                        self@.calls == deltas_applied(start.calls, t@.take(i as int)),
                        events(out@) == head + deltas_events(start.calls, t@.take(i as int)),
                    decreases t@.len() - i,
                {
                    assert(t@.take(i + 1).drop_last() =~= t@.take(i as int));
                    let ghost before = self@.calls;
                    let ghost told = events(out@);
                    let d = copy_delta(&t[i]);
                    assert(self@.calls.contains_key(d@.index) <==> self.pending@.contains_key(
                        d@.index,
                    ));
                    let update = apply_tool_call_delta(&mut self.pending, d);
                    match update.start {
                        Some(s) => push_event(
                            out,
                            StreamEvent::ToolCallStart { id: s.0, name: s.1 },
                        ),
                        None => {},
                    }
                    match update.arg_delta {
                        Some(a) => push_event(out, StreamEvent::ToolCallArgDelta(a)),
                        None => {},
                    }
                    assert(events(out@) =~= told + delta_events(before, d@));
                    assert(events(out@) =~= head + deltas_events(start.calls, t@.take(i + 1)));
                    i += 1;
                }
                assert(t@.take(t@.len() as int) =~= t@);
            },
            None => {},
        }
        assert(events(out@) =~= base + start.choice_events(*delta));
    }

    /// Takes in a chunk and tells what it brings.
    pub fn apply_chunk(&mut self, chunk: &StreamChunk) -> (r: Vec<StreamEvent>)
        ensures
            (final(self)@, events(r@)) == old(self)@.after_chunk(chunk.choices@),
    {
        let ghost start = self@;
        let ghost c = chunk.choices@;
        let mut r: Vec<StreamEvent> = Vec::new();
        let mut i: usize = 0;
        assert(c.take(0).len() == 0);
        assert(events(r@) =~= Seq::empty());
        while i < chunk.choices.len()
            invariant
                i <= c.len(),
                c == chunk.choices@,
                (self@, events(r@)) == start.after_chunk(c.take(i as int)),
            decreases c.len() - i,
        {
            assert(c.take(i + 1).drop_last() =~= c.take(i as int));
            self.apply_choice(&chunk.choices[i].delta, &mut r);
            i += 1;
        }
        assert(c.take(c.len() as int) =~= c);
        r
    }

    /// The message that the stream amounts to. Its tool calls stand in the
    /// order of their indices.
    pub fn finish(self) -> (m: ChatMessage)
        ensures
            m@.role == "assistant"@,
            m@.tool_call_id is None,
            m@.content == (if self@.content.len() == 0 {
                None
            } else {
                Some(self@.content)
            }),
            m@.tool_calls is None <==> self@.calls.dom() == Set::<usize>::empty(),
            m@.tool_calls is Some ==> in_index_order(m@.tool_calls->Some_0, self@.calls),
    {
        let mut list: Vec<ToolCall> = Vec::new();
        let ghost m = self.pending@;
        let values = self.pending.values();
        let ghost keys = choose|keys: Seq<usize>|
            {
                &&& #[trigger] increasing_seq(keys)
                &&& keys.to_set() == m.dom()
                &&& keys.no_duplicates()
                &&& values.remaining() == keys.map(|i: int, k| &m[k])
            };
        let ghost all = values.remaining();
        for v in it: values
            invariant
                it.seq() == all,
                list@.len() == it.index(),
                forall|k: int| 0 <= k < list@.len() ==> (#[trigger] list@[k])@ == (*all[k])@,
        {
            list.push(v.copy());
        }
        proof {
            assert(all.len() == keys.len());
            assert forall|k: int| 0 <= k < keys.len() implies keys.to_set().contains(
                #[trigger] keys[k],
            ) by {
                assert(keys.contains(keys[k]));
            }
            assert(calls(list@) =~= Seq::new(keys.len(), |i: int| call_map(m)[keys[i]]));
            assert(call_map(m).dom() =~= m.dom());
            if list@.len() == 0 {
                assert(m.dom() =~= Set::<usize>::empty());
            } else {
                assert(m.dom().contains(keys[0]));
            }
            assert(in_index_order(calls(list@), call_map(m)));
        }
        let content = if self.content.as_str().unicode_len() == 0 {
            None
        } else {
            Some(self.content)
        };
        let tool_calls = if list.len() == 0 {
            None
        } else {
            Some(list)
        };
        ChatMessage { role: "assistant".to_owned(), content, tool_calls, tool_call_id: None }
    }
}

/// What a call has got so far is never lost to a later delta: its identifier
/// and type stay, and its arguments only grow.
pub proof fn law_deltas_only_add(p: Map<usize, Call>, d: Delta, k: usize)
    requires
        p.contains_key(k),
    ensures
        delta_applied(p, d).contains_key(k),
        delta_applied(p, d)[k].id == p[k].id,
        delta_applied(p, d)[k].type_ == p[k].type_,
        p[k].arguments.is_prefix_of(delta_applied(p, d)[k].arguments),
        p[k].name.len() > 0 ==> delta_applied(p, d)[k].name == p[k].name,
{
}

proof fn lemma_pieces_nonempty(s: Seq<char>, sep: char)
    ensures
        pieces(s, sep).len() > 0,
{
}

/// The pieces of a text that is continued: only the last piece changes.
proof fn lemma_pieces_continued(s: Seq<char>, t: Seq<char>, sep: char)
    ensures
        pieces(s + t, sep) == pieces(s, sep).drop_last() + pieces(
            pieces(s, sep).last() + t,
            sep,
        ),
    decreases s.len(),
{
    let i = find_from(s, sep, 0);
    lemma_find_from(s, sep, 0);
    if i >= s.len() {
        assert(pieces(s, sep) =~= seq![s]);
        assert(pieces(s, sep).drop_last() =~= Seq::empty());
        assert(pieces(s + t, sep) =~= Seq::empty() + pieces(s + t, sep));
    } else {
        let u = s + t;
        lemma_find_from(u, sep, 0);
        let j = find_from(u, sep, 0);
        assert(u[i] == s[i]);
        if j < i {
            assert(u[j] == s[j]);
        }
        assert(j == i);
        let rest = s.skip(i + 1);
        lemma_pieces_continued(rest, t, sep);
        assert(u.skip(i + 1) =~= rest + t);
        assert(u.take(i) =~= s.take(i));
        lemma_pieces_nonempty(rest, sep);
        let p = pieces(rest, sep);
        assert(pieces(s, sep) =~= seq![s.take(i)] + p);
        assert(pieces(s, sep).last() == p.last());
        assert(pieces(s, sep).drop_last() =~= seq![s.take(i)] + p.drop_last());
        assert(pieces(u, sep) =~= seq![s.take(i)] + (p.drop_last() + pieces(p.last() + t, sep)));
        assert(pieces(u, sep) =~= pieces(s, sep).drop_last() + pieces(
            pieces(s, sep).last() + t,
            sep,
        ));
    }
}

proof fn lemma_data_concat(a: Seq<Seq<char>>, b: Seq<Seq<char>>)
    ensures
        data_of(a + b) == data_of(a) + data_of(b),
    decreases b.len(),
{
    if b.len() == 0 {
        assert(a + b =~= a);
        assert(data_of(a) + data_of(b) =~= data_of(a));
    } else {
        lemma_data_concat(a, b.drop_last());
        assert((a + b).drop_last() =~= a + b.drop_last());
        assert((a + b).last() == b.last());
        assert(data_of(a + b) =~= data_of(a) + data_of(b));
    }
}

/// It does not matter how a stream is cut into pieces on its way: taking in
/// two pieces gives the same data, and leaves the same rest, as taking in both
/// at once.
pub proof fn law_stream_cuts_do_not_matter(rest: Seq<char>, a: Seq<char>, b: Seq<char>)
    ensures
        data_of(pieces(rest + (a + b), '\n').drop_last()) == data_of(
            pieces(rest + a, '\n').drop_last(),
        ) + data_of(pieces(pieces(rest + a, '\n').last() + b, '\n').drop_last()),
        pieces(rest + (a + b), '\n').last() == pieces(
            pieces(rest + a, '\n').last() + b,
            '\n',
        ).last(),
{
    let first = pieces(rest + a, '\n');
    let second = pieces(first.last() + b, '\n');
    assert(rest + (a + b) =~= (rest + a) + b);
    lemma_pieces_continued(rest + a, b, '\n');
    lemma_pieces_nonempty(first.last() + b, '\n');
    let all = pieces(rest + (a + b), '\n');
    assert(all == first.drop_last() + second);
    assert(all.drop_last() =~= first.drop_last() + second.drop_last());
    lemma_data_concat(first.drop_last(), second.drop_last());
}

fn copy_delta(d: &StreamToolCall) -> (r: StreamToolCall)
    ensures
        r@ == d@,
{
    let function = match &d.function {
        Some(f) => Some(
            StreamFunctionCall { name: f.name.clone(), arguments: f.arguments.clone() },
        ),
        None => None,
    };
    StreamToolCall { index: d.index, id: d.id.clone(), type_: d.type_.clone(), function }
}

/// A delta to a call that is open adds its arguments to those of the call,
/// whether or not it repeats the identifier, and changes no other call. Only a
/// name that is still missing is filled in, by a delta that has an identifier.
pub proof fn law_deltas_continue_their_call(p: Map<usize, Call>, d: Delta, other: usize)
    requires
        p.contains_key(d.index),
        other != d.index,
    ensures
        ({
            let q = delta_applied(p, d);
            &&& q.contains_key(d.index)
            &&& d.arguments matches Some(a) ==> q[d.index].arguments == p[d.index].arguments + a
            &&& d.arguments is None ==> q[d.index].arguments == p[d.index].arguments
            &&& q[d.index].id == p[d.index].id
            &&& q[d.index].type_ == p[d.index].type_
            &&& q[d.index].name == (if d.id is Some && p[d.index].name.len() == 0 {
                d.name
            } else {
                p[d.index].name
            })
            &&& q.contains_key(other) == p.contains_key(other)
            &&& p.contains_key(other) ==> q[other] == p[other]
        }),
{
    if d.id is Some && p[d.index].name.len() == 0 && d.name.len() == 0 {
        assert(d.name =~= p[d.index].name);
    }
}

/// A delta with an identifier opens a call at an index that has none, with all
/// that the delta says. Without an identifier nothing is opened.
pub proof fn law_deltas_open_calls_by_identifier(p: Map<usize, Call>, d: Delta, other: usize)
    requires
        !p.contains_key(d.index),
        other != d.index,
    ensures
        ({
            let q = delta_applied(p, d);
            &&& d.id is None ==> q == p
            &&& d.id matches Some(id) ==> q.contains_key(d.index) && q[d.index] == (Call {
                id,
                type_: d.type_,
                name: d.name,
                arguments: match d.arguments {
                    Some(a) => a,
                    None => Seq::empty(),
                },
            })
            &&& q.contains_key(other) == p.contains_key(other)
            &&& p.contains_key(other) ==> q[other] == p[other]
        }),
{
    if d.id is Some && d.arguments is Some {
        assert(Seq::<char>::empty() + d.arguments->Some_0 =~= d.arguments->Some_0);
    }
}

/// The arguments that deltas add to the call at an index, one behind the other.
pub open spec fn arguments_for(d: Seq<StreamToolCall>, k: usize) -> Seq<char>
    decreases d.len(),
{
    if d.len() == 0 {
        Seq::empty()
    } else {
        let own = if d[0]@.index == k && d[0]@.arguments is Some {
            d[0]@.arguments->Some_0
        } else {
            Seq::empty()
        };
        own + arguments_for(d.skip(1), k)
    }
}

proof fn lemma_arguments_push(d: Seq<StreamToolCall>, x: StreamToolCall, k: usize)
    ensures
        arguments_for(d.push(x), k) == arguments_for(d, k) + (if x@.index == k && x@.arguments
            is Some {
            x@.arguments->Some_0
        } else {
            Seq::empty()
        }),
    decreases d.len(),
{
    let all = d.push(x);
    if d.len() == 0 {
        assert(all.skip(1) =~= Seq::empty());
        assert(arguments_for(all.skip(1), k) =~= Seq::empty());
        assert(arguments_for(all, k) =~= arguments_for(d, k) + (if x@.index == k && x@.arguments
            is Some {
            x@.arguments->Some_0
        } else {
            Seq::empty()
        }));
    } else {
        lemma_arguments_push(d.skip(1), x, k);
        assert(all.skip(1) =~= d.skip(1).push(x));
        assert(arguments_for(all, k) =~= arguments_for(d, k) + (if x@.index == k && x@.arguments
            is Some {
            x@.arguments->Some_0
        } else {
            Seq::empty()
        }));
    }
}

/// The arguments of a call that is open are in the end what they were, with all
/// that the deltas for it bring behind it, in their order.
pub proof fn law_arguments_are_put_together(
    p: Map<usize, Call>,
    d: Seq<StreamToolCall>,
    k: usize,
)
    requires
        p.contains_key(k),
    ensures
        deltas_applied(p, d).contains_key(k),
        deltas_applied(p, d)[k].id == p[k].id,
        deltas_applied(p, d)[k].arguments == p[k].arguments + arguments_for(d, k),
    decreases d.len(),
{
    if d.len() == 0 {
        assert(p[k].arguments + arguments_for(d, k) =~= p[k].arguments);
    } else {
        let before = d.drop_last();
        law_arguments_are_put_together(p, before, k);
        assert(before.push(d.last()) =~= d);
        lemma_arguments_push(before, d.last(), k);
        assert(deltas_applied(p, d)[k].arguments =~= p[k].arguments + arguments_for(d, k));
    }
}

/// Deltas in two parts do what they do one part after the other.
pub proof fn law_deltas_in_parts(
    p: Map<usize, Call>,
    a: Seq<StreamToolCall>,
    b: Seq<StreamToolCall>,
    x: StreamToolCall,
)
    ensures
        deltas_applied(p, a + b) == deltas_applied(deltas_applied(p, a), b),
        deltas_applied(p, seq![x]) == delta_applied(p, x@),
        deltas_events(p, a + b) == deltas_events(p, a) + deltas_events(deltas_applied(p, a), b),
        deltas_events(p, seq![x]) == delta_events(p, x@),
    decreases b.len(),
{
    assert(seq![x].drop_last() =~= Seq::empty());
    assert(deltas_applied(p, seq![x].drop_last()) == p);
    assert(deltas_events(p, seq![x].drop_last()) =~= Seq::empty());
    assert(deltas_events(p, seq![x]) =~= delta_events(p, x@));
    if b.len() == 0 {
        assert(a + b =~= a);
        assert(deltas_events(p, a) + deltas_events(deltas_applied(p, a), b) =~= deltas_events(
            p,
            a,
        ));
    } else {
        law_deltas_in_parts(p, a, b.drop_last(), x);
        assert((a + b).drop_last() =~= a + b.drop_last());
        assert((a + b).last() == b.last());
        assert(deltas_events(p, a + b) =~= deltas_events(p, a) + deltas_events(
            deltas_applied(p, a),
            b,
        ));
    }
}

/// A delta is told of: that it opens a call, where it does, and the arguments
/// that it brings.
pub proof fn law_deltas_are_told(p: Map<usize, Call>, d: Delta)
    ensures
        ({
            let e = delta_events(p, d);
            let opens = d.id is Some && !p.contains_key(d.index);
            &&& e.len() == (if opens {
                1int
            } else {
                0int
            }) + (if d.arguments is Some {
                1int
            } else {
                0int
            })
            &&& opens ==> e[0] == (Event::ToolCallStart { id: d.id->Some_0, name: d.name })
            &&& d.arguments matches Some(a) ==> e.last() == Event::ToolCallArgDelta(a)
        }),
{
}

/// A choice adds its content to the reply and its deltas to the calls, and all
/// of it is told: reasoning first, then content, then the calls.
pub proof fn law_choices_are_added_and_told(s: Assembly, d: StreamDelta)
    ensures
        ({
            let after = s.after_choice(d);
            let e = s.choice_events(d);
            let r = if d.reasoning_content is Some {
                1int
            } else {
                0int
            };
            let c = if d.content is Some {
                1int
            } else {
                0int
            };
            &&& after.rest == s.rest
            &&& d.content matches Some(t) ==> after.content == s.content + t@
            &&& d.content is None ==> after.content == s.content
            &&& d.tool_calls matches Some(v) ==> after.calls == deltas_applied(s.calls, v@)
            &&& d.tool_calls is None ==> after.calls == s.calls
            &&& d.reasoning_content matches Some(t) ==> e[0] == Event::Reasoning(t@)
            &&& d.content matches Some(t) ==> e[r] == Event::Content(t@)
            &&& d.tool_calls matches Some(v) ==> e.skip(r + c) == deltas_events(s.calls, v@)
            &&& d.tool_calls is None ==> e.len() == r + c
        }),
{
    let e = s.choice_events(d);
    let r = if d.reasoning_content is Some {
        1int
    } else {
        0int
    };
    let c = if d.content is Some {
        1int
    } else {
        0int
    };
    if d.tool_calls is Some {
        assert(e.skip(r + c) =~= deltas_events(s.calls, d.tool_calls->Some_0@));
    }
}

/// A chunk in two parts does what it does one part after the other, and a
/// chunk of one choice what the choice does.
pub proof fn law_chunks_in_parts(
    s: Assembly,
    a: Seq<StreamChoice>,
    b: Seq<StreamChoice>,
    x: StreamChoice,
)
    ensures
        s.after_chunk(a + b).0 == s.after_chunk(a).0.after_chunk(b).0,
        s.after_chunk(a + b).1 == s.after_chunk(a).1 + s.after_chunk(a).0.after_chunk(b).1,
        s.after_chunk(seq![x]) == (s.after_choice(x.delta), s.choice_events(x.delta)),
        s.after_chunk(Seq::empty()) == (s, Seq::<Event>::empty()),
    decreases b.len(),
{
    assert(seq![x].drop_last() =~= Seq::empty());
    assert(s.after_chunk(seq![x].drop_last()) == (s, Seq::<Event>::empty()));
    assert(s.after_chunk(seq![x]).1 =~= s.choice_events(x.delta));
    if b.len() == 0 {
        assert(a + b =~= a);
        assert(s.after_chunk(a).1 + s.after_chunk(a).0.after_chunk(b).1 =~= s.after_chunk(a).1);
    } else {
        law_chunks_in_parts(s, a, b.drop_last(), x);
        assert((a + b).drop_last() =~= a + b.drop_last());
        assert((a + b).last() == b.last());
        assert(s.after_chunk(a + b).1 =~= s.after_chunk(a).1 + s.after_chunk(a).0.after_chunk(
            b,
        ).1);
    }
}

/// The data of a line is what stands behind `data: `, without white space at
/// its ends; a line without that mark is its own data. Blank lines and the end
/// mark have none.
pub proof fn law_lines_carry_data(text: Seq<char>, line: Seq<char>)
    ensures
        text.len() > 0 && trimmed(text) == text && text != "[DONE]"@ ==> line_data(
            "data: "@ + text,
        ) == Some(text),
        line_data("data: [DONE]"@) is None,
        trimmed(line).len() == 0 ==> line_data(line) is None,
        trimmed(line).len() > 0 && !"data: "@.is_prefix_of(trimmed(line)) ==> line_data(line)
            == Some(trimmed(line)),
{
    reveal_strlit("data: ");
    reveal_strlit("data: [DONE]");
    reveal_strlit("[DONE]");
    if text.len() > 0 && trimmed(text) == text && text != "[DONE]"@ {
        let l = "data: "@ + text;
        lemma_trim_end_keeps(text);
        assert(trim_start(l) == l);
        lemma_trim_end_behind("data: "@, text);
        assert(trimmed(l) == l);
        assert(l.take(6) =~= "data: "@);
        assert(l.skip(6) =~= text);
        if l == "data: [DONE]"@ {
            assert(text =~= "data: [DONE]"@.skip(6));
            assert("data: [DONE]"@.skip(6) =~= "[DONE]"@);
        }
    }
    let done = "data: [DONE]"@;
    assert(done.len() == 12 && done[0] == 'd' && done[11] == ']');
    assert(trim_start(done) == done);
    assert(trim_end(done) == done);
    let t = trimmed(line);
    if t.len() > 0 && !"data: "@.is_prefix_of(t) {
        if t == done {
            assert("data: "@ =~= t.subrange(0, 6));
        }
        if t.len() >= 6 && t.take(6) == "data: "@ {
            assert("data: "@ =~= t.subrange(0, 6));
        }
    }
}

/// The end of a trimmed text is no white space.
proof fn lemma_trim_end_keeps(s: Seq<char>)
    requires
        s.len() > 0,
        trimmed(s) == s,
    ensures
        !is_space(s[0]),
        !is_space(s.last()),
{
    lemma_trim_end_len(trim_start(s));
    if is_space(s[0]) {
        lemma_trim_start_len(s.drop_first());
    } else if is_space(s.last()) {
        lemma_trim_end_len(s.drop_last());
    }
}

proof fn lemma_trim_start_len(s: Seq<char>)
    ensures
        trim_start(s).len() <= s.len(),
    decreases s.len(),
{
    if s.len() > 0 && is_space(s[0]) {
        lemma_trim_start_len(s.drop_first());
    }
}

proof fn lemma_trim_end_len(s: Seq<char>)
    ensures
        trim_end(s).len() <= s.len(),
    decreases s.len(),
{
    if s.len() > 0 && is_space(s.last()) {
        lemma_trim_end_len(s.drop_last());
    }
}

proof fn lemma_trim_end_behind(a: Seq<char>, s: Seq<char>)
    requires
        s.len() > 0,
        trimmed(s) == s,
    ensures
        trim_end(a + s) == a + s,
{
    lemma_trim_end_keeps(s);
    assert((a + s).last() == s.last());
}

/// The data of lines in two parts is that of the first part and then that of
/// the second; of a single line it is its own, where it has any.
pub proof fn law_data_in_parts(a: Seq<Seq<char>>, b: Seq<Seq<char>>, line: Seq<char>)
    ensures
        data_of(a + b) == data_of(a) + data_of(b),
        line_data(line) matches Some(d) ==> data_of(seq![line]) == seq![d],
        line_data(line) is None ==> data_of(seq![line]) == Seq::<Seq<char>>::empty(),
{
    lemma_data_concat(a, b);
    assert(seq![line].drop_last() =~= Seq::empty());
    assert(data_of(seq![line].drop_last()) =~= Seq::empty());
    if line_data(line) is Some {
        assert(data_of(seq![line]) =~= seq![line_data(line)->Some_0]);
    }
}

/// Calls in the order of their indices are all the calls, each once, and a call
/// with a smaller index stands before one with a larger one.
pub proof fn law_calls_stand_in_order(v: Seq<Call>, m: Map<usize, Call>, a: usize, b: usize)
    requires
        in_index_order(v, m),
        m.contains_key(a),
        m.contains_key(b),
        a < b,
    ensures
        exists|i: int, j: int|
            0 <= i < j < v.len() && #[trigger] v[i] == m[a] && #[trigger] v[j] == m[b],
        v.len() == m.dom().len(),
{
    let keys = choose|keys: Seq<usize>|
        {
            &&& #[trigger] increasing_seq(keys)
            &&& keys.to_set() == m.dom()
            &&& keys.no_duplicates()
            &&& v == Seq::new(keys.len(), |i: int| m[keys[i]])
        };
    assert(keys.to_set().contains(a) && keys.to_set().contains(b));
    let i = choose|i: int| 0 <= i < keys.len() && keys[i] == a;
    let j = choose|j: int| 0 <= j < keys.len() && keys[j] == b;
    keys.unique_seq_to_set();
    assert(v[i] == m[a] && v[j] == m[b]);
    broadcast use vstd::laws_cmp::group_laws_cmp;

    assert(vstd::laws_cmp::obeys_cmp::<usize>());
    if j < i {
        assert(keys[j].cmp_spec(&keys[i]) is Less);
    }
}

/// Text without a line end is kept until its line is complete; a line that is
/// complete gives its data, if it has any, and what follows it is taken in as a
/// new line.
pub proof fn law_lines_are_put_together(s: Assembly, a: Seq<char>, b: Seq<char>)
    requires
        forall|i: int| 0 <= i < s.rest.len() ==> #[trigger] s.rest[i] != '\n',
        forall|i: int| 0 <= i < a.len() ==> #[trigger] a[i] != '\n',
    ensures
        s.after_text(a).0.rest == s.rest + a,
        s.after_text(a).1.len() == 0,
        s.after_text(a + seq!['\n'] + b).0.rest == (Assembly {
            rest: Seq::empty(),
            ..s
        }).after_text(b).0.rest,
        s.after_text(a + seq!['\n'] + b).1 == (match line_data(s.rest + a) {
            Some(d) => seq![d],
            None => Seq::empty(),
        }) + (Assembly { rest: Seq::empty(), ..s }).after_text(b).1,
        s.after_text(a).0.content == s.content,
        s.after_text(a).0.calls == s.calls,
{
    let x = s.rest + a;
    assert forall|i: int| 0 <= i < x.len() implies #[trigger] x[i] != '\n' by {
        if i < s.rest.len() {
            assert(x[i] == s.rest[i]);
        } else {
            assert(x[i] == a[i - s.rest.len()]);
        }
    }
    law_pieces_stand_between_separators(x, b, '\n');
    assert(s.rest + (a + seq!['\n'] + b) =~= x + seq!['\n'] + b);
    assert(Seq::<char>::empty() + b =~= b);
    let p = pieces(b, '\n');
    lemma_pieces_not_empty(b);
    let all = seq![x] + p;
    assert(seq![x].drop_last() =~= Seq::empty());
    assert(all.drop_last() =~= seq![x] + p.drop_last());
    law_data_in_parts(seq![x], p.drop_last(), x);
}

proof fn lemma_pieces_not_empty(s: Seq<char>)
    ensures
        pieces(s, '\n').len() > 0,
{
}

/// Where a delta leaves something open it is of the first call, of an ordinary
/// function, and brings neither a name nor arguments; what it says is taken as
/// it is.
pub proof fn law_deltas_are_taken_as_they_are(d: StreamToolCall)
    ensures
        d@.index == (if d.index is Some {
            d.index->0
        } else {
            0
        }),
        d@.id == opt_text(d.id),
        d.type_ is Some ==> d@.type_ == d.type_->0@,
        d.type_ is None ==> d@.type_ == "function"@,
        d.function is Some && d.function->0.name is Some ==> d@.name == d.function->0.name->0@,
        d.function is None || d.function->0.name is None ==> d@.name.len() == 0,
        d.function is Some && d.function->0.arguments is Some ==> d@.arguments == Some(
            d.function->0.arguments->0@,
        ),
        d.function is None || d.function->0.arguments is None ==> d@.arguments is None,
{
}

/// Messages and calls are what their parts say.
pub proof fn law_messages_are_what_they_say(m: ChatMessage, c: ToolCall, e: StreamEvent)
    ensures
        m@.role == m.role@,
        m.content is Some ==> m@.content == Some(m.content->0@),
        m.content is None ==> m@.content is None,
        m.tool_calls is Some ==> m@.tool_calls is Some && m@.tool_calls->0.len()
            == m.tool_calls->0@.len(),
        m.tool_calls is None ==> m@.tool_calls is None,
        m.tool_call_id is Some ==> m@.tool_call_id == Some(m.tool_call_id->0@),
        c@.id == c.id@,
        c@.type_ == c.type_@,
        c@.name == c.function.name@,
        c@.arguments == c.function.arguments@,
        e is Content ==> e@ == Event::Content(e->Content_0@),
        e is Reasoning ==> e@ == Event::Reasoning(e->Reasoning_0@),
        e is ToolCallArgDelta ==> e@ == Event::ToolCallArgDelta(e->ToolCallArgDelta_0@),
        e is ToolCallStart ==> e@ is ToolCallStart && e@->id == e->id@ && e@->name == e->name@,
        e is Error ==> e@ == Event::Error(e->Error_0@),
{
}

/// A plain message is said in its role and calls nothing; an answer to a call
/// names the call.
pub proof fn law_plain_messages(role: Seq<char>, content: Seq<char>, id: Seq<char>)
    ensures
        plain_message(role, content).role == role,
        plain_message(role, content).content == Some(content),
        plain_message(role, content).tool_calls is None,
        plain_message(role, content).tool_call_id is None,
        tool_message(content, id).role == "tool"@,
        tool_message(content, id).content == Some(content),
        tool_message(content, id).tool_call_id == Some(id),
        tool_message(content, id).tool_calls is None,
{
}

/// A reply says what arrived of it and makes the calls that arrived; it is that
/// of the assistant.
pub proof fn law_replies_are_what_arrived(a: StreamAssembler, m: ChatMessage)
    requires
        call_ensures(StreamAssembler::finish, (a,), m),
    ensures
        m@.role == "assistant"@,
        m@.tool_call_id is None,
        a@.content.len() > 0 ==> m@.content == Some(a@.content),
        a@.content.len() == 0 ==> m@.content is None,
        (exists|k: usize| a@.calls.contains_key(k)) ==> m@.tool_calls is Some && in_index_order(
            m@.tool_calls->0,
            a@.calls,
        ),
        (forall|k: usize| !a@.calls.contains_key(k)) ==> m@.tool_calls is None,
{
    if forall|k: usize| !a@.calls.contains_key(k) {
        assert(a@.calls.dom() =~= Set::<usize>::empty());
    }
    if exists|k: usize| a@.calls.contains_key(k) {
        let k = choose|k: usize| a@.calls.contains_key(k);
        assert(a@.calls.dom().contains(k));
    }
}

} // verus!
