//! The peripheral's side of the message bus, and how the peripheral finds its
//! place when it starts.

use crate::json::{empty_object, json_parse, number_of, text_list, Json, JsonTree};
use crate::kernel::{declares, handshake_error, law_roles_need_their_capabilities, Letter};
use crate::messages::Envelope;
use crate::msg_types;
use crate::paths::{join, joined};
use crate::scan::{contains_text, law_parts_are_found};
use crate::split::texts;
use crate::text::{dec, decimal, is_digit, lemma_dec_round_trip, parsed_u32, read_u32, str_eq};
use crate::version::{opt_text, sentence};
use vstd::prelude::*;
use vstd::string::*;

verus! {

/// The port of the peripheral where none is set.
pub const DEFAULT_HTTP_PORT: u16 = 7700;

/// The identifier of a message, numbered by a counter that wraps around.
pub fn new_msg_id(counter: &mut u64) -> (id: String)
    ensures
        id@ == "peripheral-"@ + dec(*old(counter) as nat),
        *final(counter) == (*old(counter) + 1) % 0x1_0000_0000_0000_0000,
{
    let id = sentence("peripheral-", decimal(*counter).as_str());
    *counter = if *counter == u64::MAX {
        0
    } else {
        *counter + 1
    };
    id
}

/// A message from the peripheral to the boot process.
pub open spec fn peripheral_letter(
    msg_type: Seq<char>,
    id: Seq<char>,
    payload: JsonTree,
) -> Letter {
    Letter { from: "peripheral"@, to: "boot"@, msg_type, id, payload }
}

fn peripheral_envelope(msg_type: &str, id: String, payload: Json) -> (e: Envelope)
    ensures
        e@ == peripheral_letter(msg_type@, id@, payload.tree()),
        e.payload == payload,
{
    Envelope {
        from: "peripheral".to_owned(),
        to: "boot".to_owned(),
        msg_type: msg_type.to_owned(),
        id,
        payload,
    }
}

/// The payload of the peripheral's handshake.
pub open spec fn hello_tree(http_port: Option<u16>) -> JsonTree {
    let t = empty_object().set("protocol_version"@, JsonTree::Text("1.0"@)).set(
        "capabilities"@,
        text_list(seq!["agent"@]),
    );
    match http_port {
        Some(p) => t.set("http_port"@, JsonTree::Number(number_of(p as u64))),
        None => t,
    }
}

/// The peripheral's handshake.
pub fn make_hello(id: String, http_port: Option<u16>) -> (e: Envelope)
    ensures
        e@ == peripheral_letter("Hello"@, id@, hello_tree(http_port)),
        e.payload.wf(),
{
    let mut caps: Vec<String> = Vec::new();
    caps.push("agent".to_owned());
    assert(texts(caps@) =~= seq!["agent"@]);
    let mut j = Json::object();
    j.set("protocol_version", Json::text("1.0"));
    j.set("capabilities", Json::strings(&caps));
    match http_port {
        Some(p) => j.set("http_port", Json::number(p as u64)),
        None => {},
    }
    peripheral_envelope(msg_types::HELLO, id, j)
}

/// Whether the answer to a handshake is a welcome, and what is wrong otherwise.
pub fn check_welcome(msg_type: &str) -> (r: Result<(), String>)
    ensures
        r is Ok <==> msg_type@ == "Welcome"@,
        r is Err ==> r->Err_0@ == "Expected Welcome, got: "@ + msg_type@,
{
    if str_eq(msg_type, msg_types::WELCOME) {
        Ok(())
    } else {
        Err(sentence("Expected Welcome, got: ", msg_type))
    }
}

/// A CPU usage of zero, as a floating-point number.
pub open spec fn idle_cpu() -> JsonTree {
    match json_parse("0.0"@) {
        Ok(t) => t,
        Err(_) => JsonTree::Null,
    }
}

/// The payload of a heartbeat.
pub open spec fn heartbeat_tree(runlevel: u8) -> JsonTree {
    empty_object().set(
        "health"@,
        empty_object().set("runlevel"@, JsonTree::Number(number_of(runlevel as u64))).set(
            "memory_bytes"@,
            JsonTree::Number(number_of(0)),
        ).set("cpu_percent"@, idle_cpu()).set(
            "tasks_processed"@,
            JsonTree::Number(number_of(0)),
        ),
    )
}

/// The peripheral's lease renewal.
pub fn make_heartbeat(id: String, runlevel: u8) -> (e: Envelope)
    ensures
        e@ == peripheral_letter("LeaseRenew"@, id@, heartbeat_tree(runlevel)),
        e.payload.wf(),
{
    let cpu = match Json::parse("0.0") {
        Ok(j) => j,
        Err(_) => Json::Null,
    };
    let mut health = Json::object();
    health.set("runlevel", Json::number(runlevel as u64));
    health.set("memory_bytes", Json::number(0));
    health.set("cpu_percent", cpu);
    health.set("tasks_processed", Json::number(0));
    let mut j = Json::object();
    j.set("health", health);
    peripheral_envelope(msg_types::LEASE_RENEW, id, j)
}

/// The submission of an update.
pub fn make_submit_update(id: String, source_path: &str) -> (e: Envelope)
    ensures
        e@ == peripheral_letter(
            "SubmitUpdate"@,
            id@,
            empty_object().set("source_path"@, JsonTree::Text(source_path@)),
        ),
        e.payload.wf(),
{
    let mut j = Json::object();
    j.set("source_path", Json::text(source_path));
    peripheral_envelope(msg_types::SUBMIT_UPDATE, id, j)
}

/// What the peripheral does with a message.
#[derive(Debug, Clone, Copy, PartialEq, Eq, Structural)]
pub enum Incoming {
    /// Nothing beyond noting it.
    Note,
    /// Pass it to the agent, then stop.
    Stop,
    /// Pass it to the agent.
    Deliver,
    Ignore,
}

/// What the peripheral does with a message of the given type.
pub fn incoming(msg_type: &str) -> (i: Incoming)
    ensures
        i == (if msg_type@ == "LeaseAck"@ || msg_type@ == "RunlevelChange"@ {
            Incoming::Note
        } else if msg_type@ == "Shutdown"@ {
            Incoming::Stop
        } else if msg_type@ == "UpdateAccepted"@ || msg_type@ == "UpdateRejected"@ {
            Incoming::Deliver
        } else {
            Incoming::Ignore
        }),
{
    if str_eq(msg_type, msg_types::LEASE_ACK) || str_eq(msg_type, msg_types::RUNLEVEL_CHANGE) {
        Incoming::Note
    } else if str_eq(msg_type, msg_types::SHUTDOWN) {
        Incoming::Stop
    } else if str_eq(msg_type, msg_types::UPDATE_ACCEPTED) || str_eq(
        msg_type,
        msg_types::UPDATE_REJECTED,
    ) {
        Incoming::Deliver
    } else {
        Incoming::Ignore
    }
}

/// The port that a setting names, or the default.
pub open spec fn port_of(setting: Option<Seq<char>>) -> u16 {
    match setting {
        Some(s) => match parsed_u32(s) {
            Some(n) => if n <= u16::MAX {
                n as u16
            } else {
                DEFAULT_HTTP_PORT
            },
            None => DEFAULT_HTTP_PORT,
        },
        None => DEFAULT_HTTP_PORT,
    }
}

/// The port that a setting names, or the default.
pub fn read_port(setting: Option<&str>) -> (p: u16)
    ensures
        p == port_of(match setting {
            Some(s) => Some(s@),
            None => None,
        }),
{
    match setting {
        Some(s) => match read_u32(s) {
            Some(n) => {
                if n <= 65535 {
                    n as u16
                } else {
                    DEFAULT_HTTP_PORT
                }
            },
            None => DEFAULT_HTTP_PORT,
        },
        None => DEFAULT_HTTP_PORT,
    }
}

/// The places where a workspace may be, in the order in which they are tried,
/// given what the environment names. A named one is the only one.
pub open spec fn workspace_candidates(
    base_dir: Seq<char>,
    named: Option<Seq<char>>,
) -> Seq<Seq<char>> {
    match named {
        Some(ws) => seq![ws],
        None => seq![
            joined(base_dir, "workspace"@),
            joined(joined(joined(base_dir, "peripheral"@), "current"@), "source"@),
        ],
    }
}

/// The places where a workspace may be.
pub fn workspace_places(base_dir: &str, named: &Option<String>) -> (r: Vec<String>)
    ensures
        texts(r@) == workspace_candidates(base_dir@, opt_text(*named)),
{
    let mut r: Vec<String> = Vec::new();
    match named {
        Some(ws) => r.push(ws.clone()),
        None => {
            r.push(join(base_dir, "workspace"));
            r.push(
                join(join(join(base_dir, "peripheral").as_str(), "current").as_str(), "source"),
            );
        },
    }
    assert(texts(r@) =~= workspace_candidates(base_dir@, opt_text(*named)));
    r
}

/// The first place that holds the peripheral's source.
pub open spec fn first_usable(places: Seq<Seq<char>>, usable: Seq<bool>) -> Option<Seq<char>>
    decreases places.len(),
{
    if places.len() == 0 {
        None
    } else if usable[0] {
        Some(places[0])
    } else {
        first_usable(places.drop_first(), usable.drop_first())
    }
}

/// Decides on the workspace, given which of the places hold the peripheral's source.
pub fn resolve_workspace_root(
    base_dir: &str,
    named: &Option<String>,
    usable: &Vec<bool>,
) -> (r: Result<String, String>)
    requires
        usable@.len() == workspace_candidates(base_dir@, opt_text(*named)).len(),
    ensures
        (match first_usable(workspace_candidates(base_dir@, opt_text(*named)), usable@) {
            Some(p) => r is Ok && r->Ok_0@ == p,
            None => r is Err && r->Err_0@ == (match *named {
                Some(ws) => "RELOOPY_WORKSPACE="@ + ws@ + " does not contain crates/peripheral/"@,
                None =>
                    "Cannot determine workspace root. Set RELOOPY_WORKSPACE env var, populate ~/.reloopy/workspace, or ensure ~/.reloopy/peripheral/current/source/ exists."@,
            }),
        }),
{
    let places = workspace_places(base_dir, named);
    let ghost p = texts(places@);
    let mut i: usize = 0;
    assert(p.skip(0) =~= p);
    assert(usable@.skip(0) =~= usable@);
    while i < places.len()
        invariant
            i <= places@.len(),
            p == texts(places@),
            p == workspace_candidates(base_dir@, opt_text(*named)),
            usable@.len() == places@.len(),
            first_usable(p.skip(i as int), usable@.skip(i as int)) == first_usable(p, usable@),
        decreases places@.len() - i,
    {
        assert(p.skip(i as int)[0] == places@[i as int]@);
        assert(usable@.skip(i as int)[0] == usable@[i as int]);
        if usable[i] {
            return Ok(places[i].clone());
        }
        assert(p.skip(i as int).drop_first() =~= p.skip(i + 1));
        assert(usable@.skip(i as int).drop_first() =~= usable@.skip(i + 1));
        i += 1;
    }
    match named {
        Some(ws) => {
            let mut m = sentence("RELOOPY_WORKSPACE=", ws.as_str());
            m.append(" does not contain crates/peripheral/");
            Err(m)
        },
        None => Err(
            "Cannot determine workspace root. Set RELOOPY_WORKSPACE env var, populate ~/.reloopy/workspace, or ensure ~/.reloopy/peripheral/current/source/ exists.".to_owned(),
        ),
    }
}

/// The API key that a configuration document holds, if it does.
pub fn config_api_key(config: &Json) -> (r: Result<String, String>)
    requires
        config.wf(),
    ensures
        (match config.tree().get_text("deepseek_api_key"@) {
            Some(k) => r is Ok && r->Ok_0@ == k,
            None => r is Err && r->Err_0@
                == "DEEPSEEK_API_KEY not set and not found in ~/.reloopy/config.json"@,
        }),
{
    match config.get_str("deepseek_api_key") {
        Some(k) => Ok(k.to_owned()),
        None => Err(
            "DEEPSEEK_API_KEY not set and not found in ~/.reloopy/config.json".to_owned(),
        ),
    }
}

/// The API key that the text of a configuration file holds, given what reading
/// it gave where it exists.
pub fn read_config_api_key(content: Option<Result<String, String>>) -> (r: Result<String, String>)
    ensures
        content is None ==> r is Err && r->Err_0@
            == "DEEPSEEK_API_KEY not set and not found in ~/.reloopy/config.json"@,
        content is Some && content->Some_0 is Err ==> r is Err && r->Err_0@ == "Read config: "@
            + content->Some_0->Err_0@,
        content is Some && content->Some_0 is Ok ==> (match json_parse(
            content->Some_0->Ok_0@,
        ) {
            Err(e) => r is Err && r->Err_0@ == "Parse config: "@ + e,
            Ok(t) => match t.get_text("deepseek_api_key"@) {
                Some(k) => r is Ok && r->Ok_0@ == k,
                None => r is Err && r->Err_0@
                    == "DEEPSEEK_API_KEY not set and not found in ~/.reloopy/config.json"@,
            },
        }),
{
    match content {
        None => Err(
            "DEEPSEEK_API_KEY not set and not found in ~/.reloopy/config.json".to_owned(),
        ),
        Some(Err(e)) => Err(sentence("Read config: ", e.as_str())),
        Some(Ok(text)) => match Json::parse(text.as_str()) {
            Ok(config) => config_api_key(&config),
            Err(e) => Err(sentence("Parse config: ", e.as_str())),
        },
    }
}

/// Messages of the peripheral go to the boot process and carry what they are
/// given.
pub proof fn law_peripheral_messages_go_to_the_boot_process(
    msg_type: Seq<char>,
    id: Seq<char>,
    payload: JsonTree,
)
    ensures
        peripheral_letter(msg_type, id, payload).from == "peripheral"@,
        peripheral_letter(msg_type, id, payload).to == "boot"@,
        peripheral_letter(msg_type, id, payload).msg_type == msg_type,
        peripheral_letter(msg_type, id, payload).id == id,
        peripheral_letter(msg_type, id, payload).payload == payload,
{
}

/// The handshake of the peripheral declares what its role asks for and names the
/// port where there is one.
pub proof fn law_handshake_declares_the_agent(port: Option<u16>)
    ensures
        hello_tree(port).get_text("protocol_version"@) == Some("1.0"@),
        hello_tree(port).get_list("capabilities"@) is Some,
        declares(hello_tree(port).get_list("capabilities"@)->0, "agent"@),
        handshake_error("peripheral"@, hello_tree(port).get("capabilities"@)->0) is None,
        port is Some ==> hello_tree(port).get("http_port"@) == Some(
            JsonTree::Number(number_of(port->0 as u64)),
        ),
        port is None ==> hello_tree(port).get("http_port"@) is None,
{
    reveal_strlit("protocol_version");
    reveal_strlit("capabilities");
    reveal_strlit("http_port");
    assert("protocol_version"@.len() == 16);
    assert("capabilities"@.len() == 12);
    assert("http_port"@.len() == 9);
    let list = hello_tree(port).get_list("capabilities"@)->0;
    assert(list[0] == JsonTree::Text("agent"@));
    law_roles_need_their_capabilities("peripheral"@, list);
}

/// A heartbeat of the peripheral tells the runlevel.
pub proof fn law_heartbeat_tells_the_runlevel(runlevel: u8)
    ensures
        heartbeat_tree(runlevel).get("health"@) is Some,
        ({
            let h = heartbeat_tree(runlevel).get("health"@)->0;
            &&& h.get("runlevel"@) == Some(JsonTree::Number(number_of(runlevel as u64)))
            &&& h.get("memory_bytes"@) == Some(JsonTree::Number(number_of(0)))
            &&& h.get("tasks_processed"@) == Some(JsonTree::Number(number_of(0)))
            &&& h.get("cpu_percent"@) is Some
        }),
{
    reveal_strlit("runlevel");
    reveal_strlit("memory_bytes");
    reveal_strlit("cpu_percent");
    reveal_strlit("tasks_processed");
    assert("runlevel"@.len() == 8);
    assert("memory_bytes"@.len() == 12);
    assert("cpu_percent"@.len() == 11);
    assert("tasks_processed"@.len() == 15);
}

/// A port that is named is taken; what names none stands for the default.
pub proof fn law_named_ports_are_taken(n: nat, s: Seq<char>)
    ensures
        n <= u16::MAX ==> port_of(Some(dec(n))) == n,
        n > u16::MAX ==> port_of(Some(dec(n))) == port_of(None),
        parsed_u32(s) is None ==> port_of(Some(s)) == port_of(None),
        port_of(None) == 7700,
{
    lemma_dec_round_trip(n);
    assert(is_digit(dec(n)[0]));
}

/// A workspace that is named is the only one that is tried; else the workspace
/// directory comes before the source of the current version.
pub proof fn law_named_workspace_is_the_only_one(base: Seq<char>, ws: Seq<char>)
    ensures
        workspace_candidates(base, Some(ws)) == seq![ws],
        workspace_candidates(base, None).len() == 2,
        workspace_candidates(base, None)[0] == joined(base, "workspace"@),
        workspace_candidates(base, None)[1] == joined(
            joined(joined(base, "peripheral"@), "current"@),
            "source"@,
        ),
{
}

/// The first place that can be used is taken, and there is none only where none
/// can be used.
pub proof fn law_first_usable_place_is_taken(places: Seq<Seq<char>>, usable: Seq<bool>)
    requires
        places.len() == usable.len(),
    ensures
        first_usable(places, usable) is None <==> forall|i: int|
            0 <= i < usable.len() ==> !#[trigger] usable[i],
        first_usable(places, usable) is Some ==> exists|i: int|
            0 <= i < usable.len() && #[trigger] usable[i] && places[i] == first_usable(
                places,
                usable,
            )->0 && (forall|k: int| 0 <= k < i ==> !#[trigger] usable[k]),
    decreases places.len(),
{
    if places.len() > 0 && !usable[0] {
        let p = places.drop_first();
        let u = usable.drop_first();
        law_first_usable_place_is_taken(p, u);
        assert(forall|i: int| 0 <= i < u.len() ==> #[trigger] u[i] == usable[i + 1]);
        if first_usable(p, u) is Some {
            let i = choose|i: int|
                0 <= i < u.len() && #[trigger] u[i] && p[i] == first_usable(p, u)->0 && (
                forall|k: int| 0 <= k < i ==> !#[trigger] u[k]);
            assert(usable[i + 1]);
            assert forall|k: int| 0 <= k < i + 1 implies !#[trigger] usable[k] by {
                if k > 0 {
                    assert(!u[k - 1]);
                }
            }
        } else {
            assert forall|i: int| 0 <= i < usable.len() implies !#[trigger] usable[i] by {
                if i > 0 {
                    assert(!u[i - 1]);
                }
            }
        }
    }
}

/// Answers to updates are delivered, an order to shut down is obeyed, notices are
/// noted, and nothing else is dealt with.
pub proof fn law_incoming_messages_are_told_apart(
    t: &str,
    i: Incoming,
)
    requires
        call_ensures(incoming, (t,), i),
    ensures
        t@ == "UpdateAccepted"@ || t@ == "UpdateRejected"@ ==> i is Deliver,
        t@ == "Shutdown"@ ==> i is Stop,
        t@ == "LeaseAck"@ || t@ == "RunlevelChange"@ ==> i is Note,
        t@ != "UpdateAccepted"@ && t@ != "UpdateRejected"@ && t@ != "Shutdown"@ && t@ != "LeaseAck"@
            && t@ != "RunlevelChange"@ ==> i is Ignore,
{
    reveal_strlit("UpdateAccepted");
    reveal_strlit("UpdateRejected");
    reveal_strlit("Shutdown");
    reveal_strlit("LeaseAck");
    reveal_strlit("RunlevelChange");
    assert("UpdateAccepted"@.len() == 14);
    assert("UpdateRejected"@.len() == 14);
    assert("Shutdown"@.len() == 8);
    assert("LeaseAck"@.len() == 8);
    assert("RunlevelChange"@.len() == 14);
    assert("UpdateAccepted"@[0] == 'U');
    assert("UpdateAccepted"@[6] == 'A');
    assert("UpdateRejected"@[0] == 'U');
    assert("UpdateRejected"@[6] == 'R');
    assert("Shutdown"@[0] == 'S');
    assert("LeaseAck"@[0] == 'L');
    assert("RunlevelChange"@[0] == 'R');
}

/// A submission names the source that is submitted.
pub proof fn law_submissions_name_the_source(id: String, path: &str, e: Envelope)
    requires
        call_ensures(make_submit_update, (id, path), e),
    ensures
        e@.msg_type == "SubmitUpdate"@,
        e@.id == id@,
        e@.to == "boot"@,
        e@.payload.get_text("source_path"@) == Some(path@),
{
}

/// The workspace is the first place that can be used; where none can, the
/// failure names the one that was asked for.
pub proof fn law_workspace_is_a_usable_place(
    base: &str,
    named: Option<String>,
    usable: Vec<bool>,
    r: Result<String, String>,
)
    requires
        usable@.len() == workspace_candidates(base@, opt_text(named)).len(),
        call_ensures(resolve_workspace_root, (base, &named, &usable), r),
    ensures
        r is Ok <==> exists|i: int| 0 <= i < usable@.len() && #[trigger] usable@[i],
        r is Ok && named is Some ==> r->Ok_0@ == named->0@,
        r is Ok && named is None && usable@[0] ==> r->Ok_0@ == joined(base@, "workspace"@),
        r is Err && named is Some ==> contains_text(r->Err_0@, named->0@),
{
    let places = workspace_candidates(base@, opt_text(named));
    law_first_usable_place_is_taken(places, usable@);
    law_named_workspace_is_the_only_one(base@, if named is Some {
        named->0@
    } else {
        base@
    });
    if r is Err && named is Some {
        law_parts_are_found(
            "RELOOPY_WORKSPACE="@,
            named->0@,
            " does not contain crates/peripheral/"@,
            r->Err_0@,
        );
    }
}

/// The key is the one that the settings hold; where they hold none, cannot be
/// read or are no settings, there is none.
pub proof fn law_key_is_that_of_the_settings(
    content: Option<Result<String, String>>,
    r: Result<String, String>,
)
    requires
        call_ensures(read_config_api_key, (content,), r),
    ensures
        r is Ok ==> content is Some && content->0 is Ok && json_parse(content->0->Ok_0@) is Ok
            && json_parse(content->0->Ok_0@)->Ok_0.get("deepseek_api_key"@) == Some(
            JsonTree::Text(r->Ok_0@),
        ),
        content is Some && content->0 is Ok && json_parse(content->0->Ok_0@) is Ok && json_parse(
            content->0->Ok_0@,
        )->Ok_0.get_text("deepseek_api_key"@) is Some ==> r is Ok,
{
}

} // verus!
