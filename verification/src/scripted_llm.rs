//! A language model that replays a script, for rehearsals without a real one.

use crate::deepseek::{
    calls, events, push_event, Call, ChatMessage, Event, Message, StreamEvent, ToolCall,
};
use vstd::prelude::*;
use vstd::string::*;

verus! {

/// Replays messages in their order.
pub struct ScriptedLlmClient {
    responses: Vec<ChatMessage>,
    next: usize,
}

/// The contents of a list of messages.
pub open spec fn messages(v: Seq<ChatMessage>) -> Seq<Message> {
    Seq::new(v.len(), |i: int| v[i]@)
}

impl View for ScriptedLlmClient {
    type V = Seq<Message>;

    /// The messages that are still to be replayed.
    closed spec fn view(&self) -> Seq<Message> {
        messages(self.responses@).skip(self.next as int)
    }
}

/// What the calls of a message are told as: each begins, and its arguments
/// follow where it has any.
pub open spec fn call_events(c: Seq<Call>) -> Seq<Event>
    decreases c.len(),
{
    if c.len() == 0 {
        Seq::empty()
    } else {
        let x = c.last();
        call_events(c.drop_last()).push(Event::ToolCallStart { id: x.id, name: x.name })
            + if x.arguments.len() > 0 {
            seq![Event::ToolCallArgDelta(x.arguments)]
        } else {
            Seq::empty()
        }
    }
}

/// What a message is told as: its tool calls, or else its content, and then the end.
pub open spec fn replay_events(m: Message) -> Seq<Event> {
    (match m.tool_calls {
        Some(c) => call_events(c),
        None => match m.content {
            Some(t) => seq![Event::Content(t)],
            None => Seq::empty(),
        },
    }).push(Event::Done)
}

fn copy_calls(v: &Vec<ToolCall>) -> (r: Vec<ToolCall>)
    ensures
        calls(r@) == calls(v@),
{
    let mut r: Vec<ToolCall> = Vec::new();
    let mut i: usize = 0;
    while i < v.len()
        invariant
            i <= v@.len(),
            r@.len() == i,
            forall|k: int| 0 <= k < i ==> (#[trigger] r@[k])@ == v@[k]@,
        decreases v@.len() - i,
    {
        r.push(v[i].copy());
        i += 1;
    }
    assert(calls(r@) =~= calls(v@));
    r
}

impl ChatMessage {
    /// A copy of the message.
    pub fn copy(&self) -> (m: ChatMessage)
        ensures
            m@ == self@,
    {
        let tool_calls = match &self.tool_calls {
            Some(v) => Some(copy_calls(v)),
            None => None,
        };
        ChatMessage {
            role: self.role.clone(),
            content: self.content.clone(),
            tool_calls,
            tool_call_id: self.tool_call_id.clone(),
        }
    }
}

/// What a message is told as when it is replayed.
pub fn events_of(m: &ChatMessage) -> (r: Vec<StreamEvent>)
    ensures
        events(r@) == replay_events(m@),
{
    let mut r: Vec<StreamEvent> = Vec::new();
    assert(events(r@) =~= Seq::empty());
    match &m.tool_calls {
        Some(v) => {
            let ghost c = calls(v@);
            let mut i: usize = 0;
            assert(c.take(0).len() == 0);
            while i < v.len()
                invariant
                    i <= v@.len(),
                    c == calls(v@),
                    events(r@) == call_events(c.take(i as int)),
                decreases v@.len() - i,
            {
                assert(c.take(i + 1).drop_last() =~= c.take(i as int));
                assert(c.take(i + 1).last() == v@[i as int]@);
                let ghost before = events(r@);
                let x = &v[i];
                push_event(
                    &mut r,
                    StreamEvent::ToolCallStart {
                        id: x.id.clone(),
                        name: x.function.name.clone(),
                    },
                );
                if x.function.arguments.as_str().unicode_len() > 0 {
                    push_event(
                        &mut r,
                        StreamEvent::ToolCallArgDelta(x.function.arguments.clone()),
                    );
                }
                assert(events(r@) =~= call_events(c.take(i + 1)));
                i += 1;
            }
            assert(c.take(v@.len() as int) =~= c);
        },
        None => match &m.content {
            Some(t) => {
                push_event(&mut r, StreamEvent::Content(t.clone()));
                assert(events(r@) =~= seq![Event::Content(t@)]);
            },
            None => {},
        },
    }
    push_event(&mut r, StreamEvent::Done);
    r
}

impl ScriptedLlmClient {
    /// The script has not been read past its end.
    pub closed spec fn wf(self) -> bool {
        self.next <= self.responses@.len()
    }

    /// A client that replays the given messages.
    pub fn new(responses: Vec<ChatMessage>) -> (c: ScriptedLlmClient)
        ensures
            c.wf(),
            c@ == messages(responses@),
    {
        let c = ScriptedLlmClient { responses, next: 0 };
        assert(c@ =~= messages(responses@));
        c
    }

    /// The next message of the script, with what it is told as.
    pub fn next_response(&mut self) -> (r: Result<(ChatMessage, Vec<StreamEvent>), String>)
        requires
            old(self).wf(),
        ensures
            final(self).wf(),
            r is Ok <==> old(self)@.len() > 0,
            r is Ok ==> {
                &&& r->Ok_0.0@ == old(self)@[0]
                &&& events(r->Ok_0.1@) == replay_events(old(self)@[0])
                &&& final(self)@ == old(self)@.drop_first()
            },
            r is Err ==> {
                &&& r->Err_0@ == "ScriptedLlmClient: no more scripted responses"@
                &&& final(self)@ == old(self)@
            },
    {
        if self.next == self.responses.len() {
            return Err("ScriptedLlmClient: no more scripted responses".to_owned());
        }
        let m = self.responses[self.next].copy();
        let e = events_of(&m);
        self.next = self.next + 1;
        assert(self@ =~= old(self)@.drop_first());
        Ok((m, e))
    }
}

/// A script of `n` messages is replayed in its order: the `i`-th request gets
/// the `i`-th message.
pub proof fn law_script_is_replayed_in_order(script: Seq<Message>, i: int)
    requires
        0 <= i < script.len(),
    ensures
        script.skip(i)[0] == script[i],
        script.skip(i).drop_first() == script.skip(i + 1),
        script.skip(script.len() as int).len() == 0,
{
    assert(script.skip(i).drop_first() =~= script.skip(i + 1));
}

/// The calls of a message are told in their order: each with its identifier and
/// its name, then its arguments where it has any.
pub proof fn law_calls_are_told_in_order(c: Seq<Call>, x: Call)
    ensures
        call_events(Seq::empty()).len() == 0,
        x.arguments.len() > 0 ==> call_events(c.push(x)) == call_events(c) + seq![
            Event::ToolCallStart { id: x.id, name: x.name },
            Event::ToolCallArgDelta(x.arguments),
        ],
        x.arguments.len() == 0 ==> call_events(c.push(x)) == call_events(c) + seq![
            Event::ToolCallStart { id: x.id, name: x.name },
        ],
{
    assert(c.push(x).drop_last() =~= c);
    if x.arguments.len() > 0 {
        assert(call_events(c.push(x)) =~= call_events(c) + seq![
            Event::ToolCallStart { id: x.id, name: x.name },
            Event::ToolCallArgDelta(x.arguments),
        ]);
    } else {
        assert(call_events(c.push(x)) =~= call_events(c) + seq![
            Event::ToolCallStart { id: x.id, name: x.name },
        ]);
    }
}

/// A message is told by its calls, or by what it says where it makes none, and
/// its end is told last.
pub proof fn law_messages_are_told_to_their_end(m: Message)
    ensures
        replay_events(m).last() is Done,
        m.tool_calls is Some ==> replay_events(m).drop_last() == call_events(m.tool_calls->0),
        m.tool_calls is None && m.content is Some ==> replay_events(m).drop_last() == seq![
            Event::Content(m.content->0),
        ],
        m.tool_calls is None && m.content is None ==> replay_events(m).len() == 1,
{
    if m.tool_calls is Some {
        assert(replay_events(m).drop_last() =~= call_events(m.tool_calls->0));
    } else if m.content is Some {
        assert(replay_events(m).drop_last() =~= seq![Event::Content(m.content->0)]);
    }
}

} // verus!
