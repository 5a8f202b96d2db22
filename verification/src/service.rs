//! What every service does on the message bus: it introduces itself, renews
//! its lease, and sorts what it is sent.

use crate::ipc_client::idle_cpu;
use crate::json::{empty_object, json_compact, number_of, text_list, Json, JsonTree};
use crate::kernel::{declares, Letter};
use crate::messages::Envelope;
use crate::msg_types;
use crate::split::texts;
use crate::text::{dec, decimal, str_eq};
use crate::version::sentence;
use vstd::prelude::*;
use vstd::string::*;

verus! {

/// A service's connection to the boot process.
pub struct ServiceClient {
    identity: String,
    capabilities: Vec<String>,
    next_id: u64,
    runlevel: u8,
    tasks_processed: u64,
}

/// The mathematical state of a `ServiceClient`.
pub ghost struct Client {
    pub identity: Seq<char>,
    pub capabilities: Seq<Seq<char>>,
    pub next_id: u64,
    pub runlevel: u8,
    pub tasks: nat,
}

impl View for ServiceClient {
    type V = Client;

    closed spec fn view(&self) -> Client {
        Client {
            identity: self.identity@,
            capabilities: texts(self.capabilities@),
            next_id: self.next_id,
            runlevel: self.runlevel,
            tasks: self.tasks_processed as nat,
        }
    }
}

impl Client {
    /// The identifier of the next message.
    pub open spec fn message_id(self) -> Seq<char> {
        self.identity + "-"@ + dec(self.next_id as nat)
    }

    /// The state after an identifier was used. The counter wraps around.
    pub open spec fn id_used(self) -> Client {
        Client { next_id: ((self.next_id + 1) % 0x1_0000_0000_0000_0000) as u64, ..self }
    }

    /// A message to the boot process.
    pub open spec fn letter(self, msg_type: Seq<char>, id: Seq<char>, payload: JsonTree) -> Letter {
        Letter { from: self.identity, to: "boot"@, msg_type, id, payload }
    }
}

/// What a service does with a message.
#[derive(Debug, Clone, Copy, PartialEq, Eq, Structural)]
pub enum ServiceMessage {
    LeaseAck,
    Shutdown,
    RunlevelChange,
    /// The kind of message that the service is there for.
    Task,
    Unhandled,
}

/// What a service with the given task does with a message of the given type.
pub open spec fn service_message(t: Seq<char>, task: Seq<char>) -> ServiceMessage {
    if t == "LeaseAck"@ {
        ServiceMessage::LeaseAck
    } else if t == "Shutdown"@ {
        ServiceMessage::Shutdown
    } else if t == "RunlevelChange"@ {
        ServiceMessage::RunlevelChange
    } else if t == task {
        ServiceMessage::Task
    } else {
        ServiceMessage::Unhandled
    }
}

/// What a service with the given task does with a message of the given type.
pub fn sort_message(msg_type: &str, task: &str) -> (m: ServiceMessage)
    ensures
        m == service_message(msg_type@, task@),
{
    if str_eq(msg_type, msg_types::LEASE_ACK) {
        ServiceMessage::LeaseAck
    } else if str_eq(msg_type, msg_types::SHUTDOWN) {
        ServiceMessage::Shutdown
    } else if str_eq(msg_type, msg_types::RUNLEVEL_CHANGE) {
        ServiceMessage::RunlevelChange
    } else if str_eq(msg_type, task) {
        ServiceMessage::Task
    } else {
        ServiceMessage::Unhandled
    }
}

/// The payload of a service's handshake.
pub open spec fn service_hello(capabilities: Seq<Seq<char>>) -> JsonTree {
    empty_object().set("protocol_version"@, JsonTree::Text("1.0"@)).set(
        "capabilities"@,
        text_list(capabilities),
    )
}

/// The payload of a service's heartbeat.
pub open spec fn renewal_tree(runlevel: u8, tasks: u64) -> JsonTree {
    empty_object().set(
        "health"@,
        empty_object().set("runlevel"@, JsonTree::Number(number_of(runlevel as u64))).set(
            "memory_bytes"@,
            JsonTree::Number(number_of(0)),
        ).set("cpu_percent"@, idle_cpu()).set(
            "tasks_processed"@,
            JsonTree::Number(number_of(tasks)),
        ),
    )
}

impl ServiceClient {
    /// A client that has not been welcomed yet. Messages are numbered from 1.
    pub fn new(identity: &str, capabilities: Vec<String>) -> (c: ServiceClient)
        ensures
            c@ == (Client {
                identity: identity@,
                capabilities: texts(capabilities@),
                next_id: 1,
                runlevel: 0,
                tasks: 0,
            }),
    {
        ServiceClient {
            identity: identity.to_owned(),
            capabilities,
            next_id: 1,
            runlevel: 0,
            tasks_processed: 0,
        }
    }

    /// The identifier for a message.
    pub fn new_msg_id(&mut self) -> (id: String)
        ensures
            id@ == old(self)@.message_id(),
            final(self)@ == old(self)@.id_used(),
    {
        let mut id = sentence(self.identity.as_str(), "-");
        id.append(decimal(self.next_id).as_str());
        self.next_id = if self.next_id == u64::MAX {
            0
        } else {
            self.next_id + 1
        };
        id
    }

    fn envelope(&self, msg_type: &str, id: String, payload: Json) -> (e: Envelope)
        ensures
            e@ == self@.letter(msg_type@, id@, payload.tree()),
            e.payload == payload,
    {
        Envelope {
            from: self.identity.clone(),
            to: "boot".to_owned(),
            msg_type: msg_type.to_owned(),
            id,
            payload,
        }
    }

    /// The handshake.
    pub fn hello(&mut self) -> (e: Envelope)
        ensures
            final(self)@ == old(self)@.id_used(),
            e@ == old(self)@.letter(
                "Hello"@,
                old(self)@.message_id(),
                service_hello(old(self)@.capabilities),
            ),
            e.payload.wf(),
    {
        let id = self.new_msg_id();
        let mut j = Json::object();
        j.set("protocol_version", Json::text("1.0"));
        j.set("capabilities", Json::strings(&self.capabilities));
        self.envelope(msg_types::HELLO, id, j)
    }

    /// Takes in the answer to the handshake; `runlevel` is what a welcome says.
    pub fn welcomed(&mut self, answer: &Envelope, runlevel: u8) -> (r: Result<(), String>)
        requires
            answer.payload.wf(),
        ensures
            r is Ok <==> answer.msg_type@ == "Welcome"@,
            r is Ok ==> final(self)@ == (Client { runlevel, ..old(self)@ }),
            r is Err ==> final(self)@ == old(self)@ && r->Err_0@ == "Expected Welcome, got: "@
                + answer.msg_type@ + " (payload: "@ + json_compact(answer.payload.tree()) + ")"@,
    {
        if str_eq(answer.msg_type.as_str(), msg_types::WELCOME) {
            self.runlevel = runlevel;
            Ok(())
        } else {
            let mut m = sentence("Expected Welcome, got: ", answer.msg_type.as_str());
            m.append(" (payload: ");
            m.append(answer.payload.compact().as_str());
            m.append(")");
            Err(m)
        }
    }

    /// The lease renewal.
    pub fn heartbeat(&mut self) -> (e: Envelope)
        ensures
            final(self)@ == old(self)@.id_used(),
            e@ == old(self)@.letter(
                "LeaseRenew"@,
                old(self)@.message_id(),
                renewal_tree(old(self)@.runlevel, old(self)@.tasks as u64),
            ),
            e.payload.wf(),
    {
        let id = self.new_msg_id();
        let cpu = match Json::parse("0.0") {
            Ok(j) => j,
            Err(_) => Json::Null,
        };
        let mut health = Json::object();
        health.set("runlevel", Json::number(self.runlevel as u64));
        health.set("memory_bytes", Json::number(0));
        health.set("cpu_percent", cpu);
        health.set("tasks_processed", Json::number(self.tasks_processed));
        let mut j = Json::object();
        j.set("health", health);
        self.envelope(msg_types::LEASE_RENEW, id, j)
    }

    /// Counts a task that was dealt with.
    pub fn task_done(&mut self)
        requires
            old(self)@.tasks < u64::MAX,
        ensures
            final(self)@ == (Client { tasks: old(self)@.tasks + 1, ..old(self)@ }),
    {
        self.tasks_processed = self.tasks_processed + 1;
    }

    /// The answer to a request: it goes back to its sender under its identifier.
    pub fn answer(&self, request: &Envelope, msg_type: &str, payload: Json) -> (e: Envelope)
        ensures
            e@ == (Letter {
                from: self@.identity,
                to: request.from@,
                msg_type: msg_type@,
                id: request.id@,
                payload: payload.tree(),
            }),
            e.payload == payload,
    {
        Envelope {
            from: self.identity.clone(),
            to: request.from.clone(),
            msg_type: msg_type.to_owned(),
            id: request.id.clone(),
            payload,
        }
    }
}

/// Identifiers are not used twice in a row.
pub proof fn law_message_ids_differ(c: Client)
    ensures
        c.message_id() != c.id_used().message_id(),
{
    let n = c.next_id as nat;
    let m = c.id_used().next_id as nat;
    crate::text::lemma_dec_round_trip(n);
    crate::text::lemma_dec_round_trip(m);
    if c.message_id() == c.id_used().message_id() {
        let head = c.identity + "-"@;
        assert(dec(n) =~= c.message_id().skip(head.len() as int));
        assert(dec(m) =~= c.id_used().message_id().skip(head.len() as int));
        assert(n == m);
    }
}

/// Messages to a service are told apart by their type; its task is the only one
/// beside those that every service knows.
pub proof fn law_service_messages_are_told_apart(t: Seq<char>, task: Seq<char>)
    ensures
        service_message("LeaseAck"@, task) is LeaseAck,
        service_message("Shutdown"@, task) is Shutdown,
        service_message("RunlevelChange"@, task) is RunlevelChange,
        task != "LeaseAck"@ && task != "Shutdown"@ && task != "RunlevelChange"@ ==> service_message(
            task,
            task,
        ) is Task,
        t != "LeaseAck"@ && t != "Shutdown"@ && t != "RunlevelChange"@ && t != task
            ==> service_message(t, task) is Unhandled,
{
    reveal_strlit("LeaseAck");
    reveal_strlit("Shutdown");
    reveal_strlit("RunlevelChange");
    assert("LeaseAck"@.len() == 8);
    assert("Shutdown"@.len() == 8);
    assert("RunlevelChange"@.len() == 14);
    assert("LeaseAck"@[0] == 'L');
    assert("Shutdown"@[0] == 'S');
}

/// Messages of a service go to the boot process under its name and carry what
/// they are given; the identifier names the service and a number that counts up.
pub proof fn law_service_messages_go_to_the_boot_process(
    c: Client,
    msg_type: Seq<char>,
    id: Seq<char>,
    payload: JsonTree,
)
    ensures
        c.letter(msg_type, id, payload).from == c.identity,
        c.letter(msg_type, id, payload).to == "boot"@,
        c.letter(msg_type, id, payload).msg_type == msg_type,
        c.letter(msg_type, id, payload).id == id,
        c.letter(msg_type, id, payload).payload == payload,
        c.message_id() == c.identity + "-"@ + dec(c.next_id as nat),
        c.next_id < u64::MAX ==> c.id_used().next_id == c.next_id + 1,
        c.id_used().identity == c.identity,
        c.id_used().runlevel == c.runlevel,
        c.id_used().tasks == c.tasks,
{
}

/// A heartbeat tells the runlevel and how many tasks were done.
pub proof fn law_heartbeats_tell_the_health(runlevel: u8, tasks: u64)
    ensures
        renewal_tree(runlevel, tasks).get("health"@) is Some,
        ({
            let h = renewal_tree(runlevel, tasks).get("health"@)->0;
            &&& h.get("runlevel"@) == Some(JsonTree::Number(number_of(runlevel as u64)))
            &&& h.get("memory_bytes"@) == Some(JsonTree::Number(number_of(0)))
            &&& h.get("tasks_processed"@) == Some(JsonTree::Number(number_of(tasks)))
        }),
{
    reveal_strlit("runlevel");
    reveal_strlit("memory_bytes");
    reveal_strlit("cpu_percent");
    reveal_strlit("tasks_processed");
    assert("runlevel"@.len() == 8);
    assert("memory_bytes"@.len() == 12);
    assert("cpu_percent"@.len() == 11);
    assert("tasks_processed"@.len() == 15);
}

/// The handshake of a service declares all of its capabilities.
pub proof fn law_services_declare_their_capabilities(capabilities: Seq<Seq<char>>, i: int)
    ensures
        service_hello(capabilities).get_text("protocol_version"@) == Some("1.0"@),
        service_hello(capabilities).get_list("capabilities"@) is Some,
        0 <= i < capabilities.len() ==> declares(
            service_hello(capabilities).get_list("capabilities"@)->0,
            capabilities[i],
        ),
{
    reveal_strlit("protocol_version");
    reveal_strlit("capabilities");
    assert("protocol_version"@.len() == 16);
    assert("capabilities"@.len() == 12);
    let list = service_hello(capabilities).get_list("capabilities"@)->0;
    if 0 <= i < capabilities.len() {
        assert(list[i] == JsonTree::Text(capabilities[i]));
    }
}

} // verus!
