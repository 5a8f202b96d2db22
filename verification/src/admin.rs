//! Administration: what the command-line tools and the web dashboard show and
//! decide.

use crate::json::{empty_object, json_compact, json_pretty, number_as_u64, text_list, Json, JsonTree};
use crate::kernel::Letter;
use crate::messages::{
    AdminAuditQueryResponse, AdminCleanupVersionsResponse, AdminForceRollbackResponse,
    AdminListVersionsResponse,
    AdminShutdownResponse, AdminStatusResponse, AdminUnlockVersionResponse,
    AdminVersionDetailResponse, AuditLog, Envelope, RunlevelRequestResult, VersionEntry,
};
use crate::msg_types;
use crate::paths::{join, joined};
use crate::scan::{
    contains_text, find_part, find_text, join_with, joined_with, law_joined_texts_are_found,
    law_parts_are_found, law_parts_of_parts_are_found, lemma_find_text,
};
use crate::split::texts;
use crate::text::{chars_of, dec, decimal, str_eq, string_from};
use crate::version::{opt_text, sentence};
use vstd::prelude::*;
use vstd::string::*;

verus! {

/// The name of a runlevel by its number.
pub open spec fn level_name(n: u8) -> Seq<char> {
    match n {
        0 => "Halt"@,
        1 => "Safe"@,
        2 => "Normal"@,
        3 => "Evolve"@,
        _ => "Unknown"@,
    }
}

/// The name of a runlevel by its number.
pub fn runlevel_name(n: u8) -> (s: &'static str)
    ensures
        s@ == level_name(n),
{
    match n {
        0 => "Halt",
        1 => "Safe",
        2 => "Normal",
        3 => "Evolve",
        _ => "Unknown",
    }
}

/// A path whose leading `~/` stands for the home directory, where that is known.
pub open spec fn expanded(path: Seq<char>, home: Option<Seq<char>>) -> Seq<char> {
    match home {
        Some(h) => if path.len() >= 2 && path[0] == '~' && path[1] == '/' {
            joined(h, path.skip(2))
        } else {
            path
        },
        None => path,
    }
}

/// Puts the home directory in the place of a leading `~/`.
pub fn expand_tilde(path: &str, home: &Option<String>) -> (r: String)
    ensures
        r@ == expanded(path@, opt_text(*home)),
{
    let n: usize = path.unicode_len();
    if n >= 2 && path.get_char(0) == '~' && path.get_char(1) == '/' {
        match home {
            Some(h) => {
                let rest = path.substring_char(2, n);
                assert(rest@ =~= path@.skip(2));
                return join(h.as_str(), rest);
            },
            None => {},
        }
    }
    path.to_owned()
}

/// A text, or what stands for its absence.
pub open spec fn text_or(s: Option<Seq<char>>, default: Seq<char>) -> Seq<char> {
    match s {
        Some(t) => t,
        None => default,
    }
}

fn opt_or(s: &Option<String>, default: &str) -> (r: String)
    ensures
        r@ == text_or(opt_text(*s), default@),
{
    match s {
        Some(t) => t.clone(),
        None => default.to_owned(),
    }
}

/// The word for a truth value.
pub open spec fn truth(b: bool) -> Seq<char> {
    if b {
        "true"@
    } else {
        "false"@
    }
}

fn truth_word(b: bool) -> (s: &'static str)
    ensures
        s@ == truth(b),
{
    if b {
        "true"
    } else {
        "false"
    }
}

/// The status report.
pub open spec fn status_text(
    runlevel: u8,
    current: Option<Seq<char>>,
    rollback: Option<Seq<char>>,
    locked: bool,
    probation: bool,
    peers: Seq<Seq<char>>,
) -> Seq<char> {
    "=== Reloopy System Status ===\nRunlevel:         "@ + dec(runlevel as nat) + " ("@
        + level_name(runlevel) + ")\nCurrent version:  "@ + text_or(current, "(none)"@)
        + "\nRollback version: "@ + text_or(rollback, "(none)"@) + "\nVersion locked:   "@ + truth(
        locked,
    ) + "\nProbation active: "@ + truth(probation) + "\nConnected peers:  ["@ + joined_with(
        peers,
        ", "@,
    ) + "]\n"@
}

/// The status report.
pub fn format_status(s: &AdminStatusResponse) -> (r: String)
    ensures
        r@ == status_text(
            s.runlevel,
            opt_text(s.current_version),
            opt_text(s.rollback_version),
            s.version_locked,
            s.probation_active,
            texts(s.connected_peers@),
        ),
{
    let mut r = "=== Reloopy System Status ===\nRunlevel:         ".to_owned();
    r.append(decimal(s.runlevel as u64).as_str());
    r.append(" (");
    r.append(runlevel_name(s.runlevel));
    r.append(")\nCurrent version:  ");
    r.append(opt_or(&s.current_version, "(none)").as_str());
    r.append("\nRollback version: ");
    r.append(opt_or(&s.rollback_version, "(none)").as_str());
    r.append("\nVersion locked:   ");
    r.append(truth_word(s.version_locked));
    r.append("\nProbation active: ");
    r.append(truth_word(s.probation_active));
    r.append("\nConnected peers:  [");
    r.append(join_with(&s.connected_peers, ", ").as_str());
    r.append("]\n");
    r
}

/// `s` with blanks behind it until it is `width` characters long.
pub open spec fn filled(s: Seq<char>, width: nat) -> Seq<char> {
    if s.len() >= width {
        s
    } else {
        s + Seq::new((width - s.len()) as nat, |i: int| ' ')
    }
}

fn fill(s: &str, width: usize) -> (r: String)
    ensures
        r@ == filled(s@, width as nat),
{
    let n: usize = s.unicode_len();
    let mut r = s.to_owned();
    let mut i: usize = n;
    while i < width
        invariant
            n <= i,
            n == s@.len(),
            i <= width || i == n,
            r@ =~= s@ + Seq::new((i - n) as nat, |k: int| ' '),
        decreases width - i,
    {
        r.push(' ');
        i += 1;
    }
    assert(r@ =~= filled(s@, width as nat));
    r
}

/// A mark, or nothing.
pub open spec fn mark(b: bool) -> Seq<char> {
    if b {
        "*"@
    } else {
        Seq::empty()
    }
}

/// A line of the table of versions.
pub open spec fn version_row(a: Seq<char>, b: Seq<char>, c: Seq<char>) -> Seq<char> {
    filled(a, 12) + " "@ + filled(b, 10) + " "@ + filled(c, 10) + "\n"@
}

/// The lines of the table of versions.
pub open spec fn version_rows(v: Seq<VersionEntry>) -> Seq<char>
    decreases v.len(),
{
    if v.len() == 0 {
        Seq::empty()
    } else {
        version_rows(v.drop_last()) + version_row(
            v.last().version@,
            mark(v.last().is_current),
            mark(v.last().is_rollback),
        )
    }
}

fn row(a: &str, b: &str, c: &str) -> (r: String)
    ensures
        r@ == version_row(a@, b@, c@),
{
    let mut r = fill(a, 12);
    r.append(" ");
    r.append(fill(b, 10).as_str());
    r.append(" ");
    r.append(fill(c, 10).as_str());
    r.append("\n");
    r
}

fn star(b: bool) -> (s: String)
    ensures
        s@ == mark(b),
{
    if b {
        "*".to_owned()
    } else {
        String::new()
    }
}

/// The table of versions.
pub fn format_versions(data: &AdminListVersionsResponse) -> (r: String)
    ensures
        r@ == (if data.versions@.len() == 0 {
            "No versions found.\n"@
        } else {
            version_row("VERSION"@, "CURRENT"@, "ROLLBACK"@)
                + "--------------------------------\n"@ + version_rows(data.versions@)
        }),
{
    let v = &data.versions;
    if v.len() == 0 {
        return "No versions found.\n".to_owned();
    }
    let mut r = row("VERSION", "CURRENT", "ROLLBACK");
    r.append("--------------------------------\n");
    let ghost head = r@;
    let mut i: usize = 0;
    assert(r@ =~= head + version_rows(v@.take(0)));
    while i < v.len()
        invariant
            i <= v@.len(),
            r@ == head + version_rows(v@.take(i as int)),
        decreases v@.len() - i,
    {
        assert(v@.take(i + 1).drop_last() =~= v@.take(i as int));
        let line = row(
            v[i].version.as_str(),
            star(v[i].is_current).as_str(),
            star(v[i].is_rollback).as_str(),
        );
        r.append(line.as_str());
        assert(r@ =~= head + version_rows(v@.take(i + 1)));
        i += 1;
    }
    assert(v@.take(v@.len() as int) =~= v@);
    r
}

/// The details of a version.
pub fn format_version_detail(d: &AdminVersionDetailResponse) -> (r: String)
    requires
        d.manifest is Some ==> d.manifest->Some_0.wf(),
    ensures
        r@ == "=== Version: "@ + d.version@ + " ===\nCurrent:    "@ + truth(d.is_current)
            + "\nRollback:   "@ + truth(d.is_rollback) + "\nHas binary: "@ + truth(d.has_binary)
            + "\nHas source: "@ + truth(d.has_source) + (match d.manifest {
            Some(m) => "\nManifest:\n"@ + json_pretty(m.tree()) + "\n"@,
            None => "\nManifest:   (none)\n"@,
        }),
{
    let mut r = sentence("=== Version: ", d.version.as_str());
    r.append(" ===\nCurrent:    ");
    r.append(truth_word(d.is_current));
    r.append("\nRollback:   ");
    r.append(truth_word(d.is_rollback));
    r.append("\nHas binary: ");
    r.append(truth_word(d.has_binary));
    r.append("\nHas source: ");
    r.append(truth_word(d.has_source));
    let tail = match &d.manifest {
        Some(m) => {
            let mut t = sentence("\nManifest:\n", m.pretty().as_str());
            t.append("\n");
            t
        },
        None => "\nManifest:   (none)\n".to_owned(),
    };
    r.append(tail.as_str());
    r
}

/// What is said of a rollback, as a success or as a failure.
pub fn format_rollback(d: &AdminForceRollbackResponse) -> (r: Result<String, String>)
    ensures
        r is Ok <==> d.success,
        r is Ok ==> r->Ok_0@ == "Rollback successful. Now at: "@ + text_or(
            opt_text(d.rolled_back_to),
            "unknown"@,
        ),
        r is Err ==> r->Err_0@ == "Rollback failed: "@ + text_or(
            opt_text(d.error),
            "unknown error"@,
        ),
{
    if d.success {
        Ok(
            sentence(
                "Rollback successful. Now at: ",
                opt_or(&d.rolled_back_to, "unknown").as_str(),
            ),
        )
    } else {
        Err(sentence("Rollback failed: ", opt_or(&d.error, "unknown error").as_str()))
    }
}

/// Names, each on a line of a list.
pub open spec fn bullets(v: Seq<Seq<char>>) -> Seq<char>
    decreases v.len(),
{
    if v.len() == 0 {
        Seq::empty()
    } else {
        bullets(v.drop_last()) + "  - "@ + v.last() + "\n"@
    }
}

/// What is said of a clean-up, as a success or as a failure.
pub fn format_cleanup(d: &AdminCleanupVersionsResponse) -> (r: Result<String, String>)
    ensures
        r is Err <==> d.error is Some,
        r is Err ==> r->Err_0@ == "Cleanup error: "@ + d.error->Some_0@,
        r is Ok ==> r->Ok_0@ == (if d.removed@.len() == 0 {
            "Nothing to clean up.\n"@
        } else {
            "Removed "@ + dec(d.removed@.len()) + " version(s):\n"@ + bullets(texts(d.removed@))
        }),
{
    match &d.error {
        Some(e) => {
            return Err(sentence("Cleanup error: ", e.as_str()));
        },
        None => {},
    }
    let v = &d.removed;
    if v.len() == 0 {
        return Ok("Nothing to clean up.\n".to_owned());
    }
    let ghost t = texts(v@);
    let mut r = sentence("Removed ", decimal(v.len() as u64).as_str());
    r.append(" version(s):\n");
    let ghost head = r@;
    let mut i: usize = 0;
    assert(r@ =~= head + bullets(t.take(0)));
    while i < v.len()
        invariant
            i <= v@.len(),
            t == texts(v@),
            r@ == head + bullets(t.take(i as int)),
        decreases v@.len() - i,
    {
        assert(t.take(i + 1).drop_last() =~= t.take(i as int));
        r.append("  - ");
        r.append(v[i].as_str());
        r.append("\n");
        assert(r@ =~= head + bullets(t.take(i + 1)));
        i += 1;
    }
    assert(t.take(v@.len() as int) =~= t);
    Ok(r)
}

/// The current runlevel, in words.
pub fn format_runlevel(runlevel: u8) -> (r: String)
    ensures
        r@ == "Current runlevel: "@ + dec(runlevel as nat) + " ("@ + level_name(runlevel) + ")"@,
{
    let mut r = sentence("Current runlevel: ", decimal(runlevel as u64).as_str());
    r.append(" (");
    r.append(runlevel_name(runlevel));
    r.append(")");
    r
}

/// What is said of a runlevel request, as a success or as a failure.
pub fn format_runlevel_result(d: &RunlevelRequestResult) -> (r: Result<String, String>)
    ensures
        r is Ok <==> d.accepted,
        r is Ok ==> r->Ok_0@ == "Runlevel changed: "@ + dec(d.from as nat) + " -> "@ + dec(
            d.to as nat,
        ),
        r is Err ==> r->Err_0@ == "Runlevel change rejected: "@ + d.reason@,
{
    if d.accepted {
        let mut m = sentence("Runlevel changed: ", decimal(d.from as u64).as_str());
        m.append(" -> ");
        m.append(decimal(d.to as u64).as_str());
        Ok(m)
    } else {
        Err(sentence("Runlevel change rejected: ", d.reason.as_str()))
    }
}

/// A peer as the table of peers shows it. CPU and memory usage are
/// floating-point numbers, given in the notation of the table.
pub struct PeerRow {
    pub identity: String,
    pub status: String,
    pub probation: bool,
    pub cpu: String,
    pub mem: String,
}

/// A line of the table of peers.
pub open spec fn peer_line(
    identity: Seq<char>,
    status: Seq<char>,
    probation: Seq<char>,
    cpu: Seq<char>,
    mem: Seq<char>,
) -> Seq<char> {
    filled(identity, 15) + " "@ + filled(status, 12) + " "@ + filled(probation, 10) + " "@ + filled(
        cpu,
        10,
    ) + " "@ + filled(mem, 10) + "\n"@
}

/// The lines of the table of peers.
pub open spec fn peer_lines(v: Seq<PeerRow>) -> Seq<char>
    decreases v.len(),
{
    if v.len() == 0 {
        Seq::empty()
    } else {
        let p = v.last();
        peer_lines(v.drop_last()) + peer_line(
            p.identity@,
            p.status@,
            truth(p.probation),
            p.cpu@,
            p.mem@,
        )
    }
}

fn format_peer(identity: &str, status: &str, probation: &str, cpu: &str, mem: &str) -> (r: String)
    ensures
        r@ == peer_line(identity@, status@, probation@, cpu@, mem@),
{
    let mut r = fill(identity, 15);
    r.append(" ");
    r.append(fill(status, 12).as_str());
    r.append(" ");
    r.append(fill(probation, 10).as_str());
    r.append(" ");
    r.append(fill(cpu, 10).as_str());
    r.append(" ");
    r.append(fill(mem, 10).as_str());
    r.append("\n");
    r
}

/// The table of peers.
pub fn format_peers(v: &Vec<PeerRow>) -> (r: String)
    ensures
        r@ == (if v@.len() == 0 {
            "No peers registered.\n"@
        } else {
            peer_line("PEER"@, "STATUS"@, "PROBATION"@, "CPU%"@, "MEM(MB)"@)
                + "---------------------------------------------------------\n"@ + peer_lines(v@)
        }),
{
    if v.len() == 0 {
        return "No peers registered.\n".to_owned();
    }
    let mut r = format_peer("PEER", "STATUS", "PROBATION", "CPU%", "MEM(MB)");
    r.append("---------------------------------------------------------\n");
    let ghost head = r@;
    let mut i: usize = 0;
    assert(r@ =~= head + peer_lines(v@.take(0)));
    while i < v.len()
        invariant
            i <= v@.len(),
            r@ == head + peer_lines(v@.take(i as int)),
        decreases v@.len() - i,
    {
        assert(v@.take(i + 1).drop_last() =~= v@.take(i as int));
        let line = format_peer(
            v[i].identity.as_str(),
            v[i].status.as_str(),
            truth_word(v[i].probation),
            v[i].cpu.as_str(),
            v[i].mem.as_str(),
        );
        r.append(line.as_str());
        assert(r@ =~= head + peer_lines(v@.take(i + 1)));
        i += 1;
    }
    assert(v@.take(v@.len() as int) =~= v@);
    r
}

/// A line of the audit log.
pub open spec fn audit_line(e: AuditLog) -> Seq<char> {
    "["@ + e.timestamp@ + "] "@ + e.event@ + " version="@ + text_or(opt_text(e.version), "-"@) + " "@
        + json_compact(e.details.tree())
}

/// The lines of the audit log.
pub open spec fn audit_lines(v: Seq<AuditLog>) -> Seq<char>
    decreases v.len(),
{
    if v.len() == 0 {
        Seq::empty()
    } else {
        audit_lines(v.drop_last()) + audit_line(v.last()) + "\n"@
    }
}

/// A line of the audit log.
pub fn format_audit_entry(e: &AuditLog) -> (r: String)
    requires
        e.details.wf(),
    ensures
        r@ == audit_line(*e),
{
    let mut r = sentence("[", e.timestamp.as_str());
    r.append("] ");
    r.append(e.event.as_str());
    r.append(" version=");
    r.append(opt_or(&e.version, "-").as_str());
    r.append(" ");
    r.append(e.details.compact().as_str());
    r
}

/// What a query of the audit log found, or why it failed.
pub fn format_audit(d: &AdminAuditQueryResponse) -> (r: Result<String, String>)
    requires
        forall|i: int| 0 <= i < d.entries@.len() ==> (#[trigger] d.entries@[i]).details.wf(),
    ensures
        r is Err <==> d.error is Some,
        r is Err ==> r->Err_0@ == "Audit query: "@ + d.error->Some_0@,
        r is Ok ==> r->Ok_0@ == (if d.entries@.len() == 0 {
            "No audit entries found.\n"@
        } else {
            audit_lines(d.entries@)
        }),
{
    match &d.error {
        Some(e) => {
            return Err(sentence("Audit query: ", e.as_str()));
        },
        None => {},
    }
    let v = &d.entries;
    if v.len() == 0 {
        return Ok("No audit entries found.\n".to_owned());
    }
    let mut r = String::new();
    let mut i: usize = 0;
    assert(r@ =~= audit_lines(v@.take(0)));
    while i < v.len()
        invariant
            i <= v@.len(),
            forall|k: int| 0 <= k < v@.len() ==> (#[trigger] v@[k]).details.wf(),
            r@ == audit_lines(v@.take(i as int)),
        decreases v@.len() - i,
    {
        assert(v@.take(i + 1).drop_last() =~= v@.take(i as int));
        let line = format_audit_entry(&v[i]);
        r.append(line.as_str());
        r.append("\n");
        assert(r@ =~= audit_lines(v@.take(i + 1)));
        i += 1;
    }
    assert(v@.take(v@.len() as int) =~= v@);
    Ok(r)
}

/// What is said of an unlock request.
pub fn format_unlock(d: &AdminUnlockVersionResponse) -> (r: &'static str)
    ensures
        r@ == (if d.was_locked {
            "Version manager unlocked successfully."@
        } else {
            "Version manager was not locked."@
        }),
{
    if d.was_locked {
        "Version manager unlocked successfully."
    } else {
        "Version manager was not locked."
    }
}

/// What is said of a shutdown request, as a success or as a failure that
/// begins with `refusal`.
pub fn format_shutdown(d: &AdminShutdownResponse, refusal: &str, default: &str) -> (r: Result<
    &'static str,
    String,
>)
    ensures
        r is Ok <==> d.success,
        r is Ok ==> r->Ok_0@ == "Shutdown initiated. Boot is terminating all services."@,
        r is Err ==> r->Err_0@ == refusal@ + text_or(opt_text(d.error), default@),
{
    if d.success {
        Ok("Shutdown initiated. Boot is terminating all services.")
    } else {
        Err(sentence(refusal, opt_or(&d.error, default).as_str()))
    }
}

/// A message of an administrator to the boot process.
pub open spec fn admin_letter(
    identity: Seq<char>,
    msg_type: Seq<char>,
    id: Seq<char>,
    payload: JsonTree,
) -> Letter {
    Letter { from: identity, to: "boot"@, msg_type, id, payload }
}

/// The handshake of an administrator.
pub open spec fn admin_hello() -> JsonTree {
    empty_object().set("protocol_version"@, JsonTree::Text("1.0"@)).set(
        "capabilities"@,
        text_list(seq!["admin"@]),
    )
}

/// The identifier of an administrator's message, numbered by a counter that
/// wraps around.
pub fn next_id(identity: &str, counter: &mut u64) -> (id: String)
    ensures
        id@ == identity@ + "-"@ + dec(*old(counter) as nat),
        *final(counter) == (*old(counter) + 1) % 0x1_0000_0000_0000_0000,
{
    let mut id = sentence(identity, "-");
    id.append(decimal(*counter).as_str());
    *counter = if *counter == u64::MAX {
        0
    } else {
        *counter + 1
    };
    id
}

/// A message of an administrator.
pub fn admin_envelope(identity: &str, msg_type: &str, id: &str, payload: Json) -> (e: Envelope)
    ensures
        e@ == admin_letter(identity@, msg_type@, id@, payload.tree()),
        e.payload == payload,
{
    Envelope {
        from: identity.to_owned(),
        to: "boot".to_owned(),
        msg_type: msg_type.to_owned(),
        id: id.to_owned(),
        payload,
    }
}

/// The handshake of an administrator.
pub fn make_admin_hello(identity: &str, id: &str) -> (e: Envelope)
    ensures
        e@ == admin_letter(identity@, "Hello"@, id@, admin_hello()),
        e.payload.wf(),
{
    let mut caps: Vec<String> = Vec::new();
    caps.push("admin".to_owned());
    assert(texts(caps@) =~= seq!["admin"@]);
    let mut j = Json::object();
    j.set("protocol_version", Json::text("1.0"));
    j.set("capabilities", Json::strings(&caps));
    admin_envelope(identity, msg_types::HELLO, id, j)
}

/// Whether an answer is of the expected type.
pub fn expect_type(expected: &str, msg_type: &str) -> (r: Result<(), String>)
    ensures
        r is Ok <==> msg_type@ == expected@,
        r is Err ==> r->Err_0@ == "Expected "@ + expected@ + ", got "@ + msg_type@,
{
    if str_eq(msg_type, expected) {
        Ok(())
    } else {
        let mut m = sentence("Expected ", expected);
        m.append(", got ");
        m.append(msg_type);
        Err(m)
    }
}

/// The address of the running peripheral, if a status names its port.
pub open spec fn agent_address(status: JsonTree) -> Option<Seq<char>> {
    match status.get("peripheral_http_port"@) {
        Some(JsonTree::Number(n)) => match number_as_u64(n) {
            Some(p) => Some("http://localhost:"@ + dec((p % 65536) as nat)),
            None => None,
        },
        _ => None,
    }
}

/// The address of the running peripheral.
pub fn agent_url(status: &Json) -> (r: Option<String>)
    requires
        status.wf(),
    ensures
        opt_text(r) == agent_address(status.tree()),
{
    match status.get("peripheral_http_port") {
        Some(v) => match v.as_u64() {
            Some(p) => Some(sentence("http://localhost:", decimal(p % 65536).as_str())),
            None => None,
        },
        None => None,
    }
}

/// What the quick evolution looks for.
pub const PATCH_OLD: &'static str = "background: #ffffff;\n        color: #0d0d0d;";

/// What the quick evolution puts in its place.
pub const PATCH_NEW: &'static str = "background: #0d1117;\n        color: #c9d1d9;";

/// Whether the quick evolution is on offer, given the system's status: only
/// before the first evolution.
pub fn quick_evolve_allowed(status: &Json) -> (r: Result<(), String>)
    requires
        status.wf(),
    ensures
        ({
            let v = text_or(status.tree().get_text("current_version"@), Seq::empty());
            &&& r is Ok <==> v.len() == 0 || v == "V0"@
            &&& r is Err ==> r->Err_0@
                == "Quick evolution is only available on V0 or fresh install"@
        }),
{
    let version = match status.get_str("current_version") {
        Some(v) => v.to_owned(),
        None => String::new(),
    };
    if version.as_str().unicode_len() > 0 && !str_eq(version.as_str(), "V0") {
        return Err("Quick evolution is only available on V0 or fresh install".to_owned());
    }
    Ok(())
}

/// A text with the first occurrence of a part replaced.
pub open spec fn replaced_once(s: Seq<char>, part: Seq<char>, by: Seq<char>) -> Seq<char> {
    match find_text(s, part, 0) {
        Some(i) => s.take(i) + by + s.skip(i + part.len()),
        None => s,
    }
}

/// The page with the patch applied, or that it does not fit.
pub fn quick_evolve_patch(content: &str) -> (r: Result<String, String>)
    ensures
        r is Ok <==> contains_text(content@, PATCH_OLD@),
        r is Ok ==> r->Ok_0@ == replaced_once(content@, PATCH_OLD@, PATCH_NEW@),
        r is Err ==> r->Err_0@
            == "Patch target not found — file may have already been modified"@,
{
    let v = chars_of(content);
    let p = chars_of(PATCH_OLD);
    proof {
        lemma_find_text(content@, PATCH_OLD@, 0);
    }
    let n: usize = v.len();
    match find_part(&v, &p, 0) {
        Some(i) => {
            let mut out = string_from(&v, 0, i);
            out.append(PATCH_NEW);
            out.append(string_from(&v, i + p.len(), n).as_str());
            assert(v@.subrange(0, i as int) =~= content@.take(i as int));
            assert(v@.subrange(i + p@.len(), n as int) =~= content@.skip(i + p@.len()));
            assert(crate::scan::occurs_at(content@, PATCH_OLD@, i as int));
            Ok(out)
        },
        None => {
            assert forall|k: int| !crate::scan::occurs_at(content@, PATCH_OLD@, k) by {
                if k >= 0 {
                }
            }
            Err("Patch target not found — file may have already been modified".to_owned())
        },
    }
}

/// A patch leaves everything around its place as it was.
pub proof fn law_patch_is_local(s: Seq<char>, part: Seq<char>, by: Seq<char>)
    requires
        contains_text(s, part),
    ensures
        ({
            let i = find_text(s, part, 0)->Some_0;
            let r = replaced_once(s, part, by);
            &&& s.take(i).is_prefix_of(r)
            &&& r.skip(i + by.len()) == s.skip(i + part.len())
            &&& r.subrange(i, i + by.len()) == by
        }),
{
    lemma_find_text(s, part, 0);
    let k = choose|k: int| crate::scan::occurs_at(s, part, k);
    let i = find_text(s, part, 0)->Some_0;
    let r = replaced_once(s, part, by);
    assert(s.take(i) =~= r.subrange(0, i));
    assert(r.skip(i + by.len()) =~= s.skip(i + part.len()));
    assert(r.subrange(i, i + by.len()) =~= by);
}

/// Levels are shown by the names that they have.
pub proof fn law_levels_are_shown_by_name(level: crate::runlevel::Runlevel, n: u8)
    ensures
        level_name(level.number()) == level.spec_name(),
        n > 3 ==> level_name(n) == "Unknown"@,
{
}

/// A leading tilde stands for the home directory, where that is known; any other
/// path stays.
pub proof fn law_tilde_is_the_home_directory(rest: Seq<char>, path: Seq<char>, home: Seq<char>)
    ensures
        expanded(seq!['~', '/'] + rest, Some(home)) == joined(home, rest),
        expanded(path, None) == path,
        path.len() < 2 || path[0] != '~' || path[1] != '/' ==> expanded(path, Some(home)) == path,
{
    assert((seq!['~', '/'] + rest).skip(2) =~= rest);
}

proof fn lemma_middle_is_found(a: Seq<char>, b: Seq<char>, x: Seq<char>, c: Seq<char>, d: Seq<char>)
    ensures
        contains_text(a + b + x + c + d, x),
        contains_text(a + b + x + c + d, b + x),
{
    let s = a + b + x + c + d;
    assert(s =~= (a + b) + x + (c + d));
    law_parts_are_found(a + b, x, c + d, s);
    assert(s =~= a + (b + x) + (c + d));
    law_parts_are_found(a, b + x, c + d, s);
}

/// The status report shows the level with its name, the versions, and every
/// peer.
pub proof fn law_status_shows_versions_and_peers(
    runlevel: u8,
    current: Seq<char>,
    rollback: Seq<char>,
    locked: bool,
    probation: bool,
    peers: Seq<Seq<char>>,
    i: int,
)
    requires
        0 <= i < peers.len(),
    ensures
        ({
            let s = status_text(runlevel, Some(current), Some(rollback), locked, probation, peers);
            &&& contains_text(s, dec(runlevel as nat) + " ("@ + level_name(runlevel))
            &&& contains_text(s, ")\nCurrent version:  "@ + current)
            &&& contains_text(s, "\nRollback version: "@ + rollback)
            &&& contains_text(s, peers[i])
        }),
{
    let s = status_text(runlevel, Some(current), Some(rollback), locked, probation, peers);
    let level = dec(runlevel as nat) + " ("@ + level_name(runlevel);
    let a = "=== Reloopy System Status ===\nRunlevel:         "@;
    let b = ")\nCurrent version:  "@;
    let c = "\nRollback version: "@;
    let d = "\nVersion locked:   "@ + truth(locked) + "\nProbation active: "@ + truth(probation)
        + "\nConnected peers:  ["@;
    let p = joined_with(peers, ", "@);
    let e = "]\n"@;
    assert(s =~= a + level + b + current + c + rollback + d + p + e);
    let none = Seq::<char>::empty();
    assert(s =~= none + a + level + (b + current) + (c + rollback + d + p + e));
    lemma_middle_is_found(none, a, level, b + current, c + rollback + d + p + e);
    assert(s =~= (a + level) + b + current + (c + rollback) + (d + p + e));
    lemma_middle_is_found(a + level, b, current, c + rollback, d + p + e);
    assert(s =~= (a + level + b + current) + c + rollback + d + (p + e));
    lemma_middle_is_found(a + level + b + current, c, rollback, d, p + e);
    let front = a + level + b + current + c + rollback;
    assert(s =~= front + d + p + e + none);
    lemma_middle_is_found(front, d, p, e, none);
    law_joined_texts_are_found(peers, ", "@, i);
    law_parts_of_parts_are_found(s, p, peers[i]);
}

/// The status report shows whether the versions are locked or on probation, and
/// says so where there are none.
pub proof fn law_status_shows_locks_and_probation(
    runlevel: u8,
    current: Option<Seq<char>>,
    rollback: Option<Seq<char>>,
    locked: bool,
    probation: bool,
    peers: Seq<Seq<char>>,
)
    ensures
        ({
            let s = status_text(runlevel, current, rollback, locked, probation, peers);
            &&& contains_text(s, "\nVersion locked:   "@ + truth(locked))
            &&& contains_text(s, "\nProbation active: "@ + truth(probation))
            &&& current is None ==> contains_text(s, ")\nCurrent version:  "@ + "(none)"@)
            &&& rollback is None ==> contains_text(s, "\nRollback version: "@ + "(none)"@)
        }),
        truth(true) == "true"@,
        truth(false) == "false"@,
{
    let s = status_text(runlevel, current, rollback, locked, probation, peers);
    let a = "=== Reloopy System Status ===\nRunlevel:         "@ + dec(runlevel as nat) + " ("@
        + level_name(runlevel);
    let b = ")\nCurrent version:  "@;
    let v = text_or(current, "(none)"@);
    let c = "\nRollback version: "@;
    let w = text_or(rollback, "(none)"@);
    let d = "\nVersion locked:   "@;
    let x = truth(locked);
    let e = "\nProbation active: "@;
    let y = truth(probation);
    let f = "\nConnected peers:  ["@ + joined_with(peers, ", "@) + "]\n"@;
    assert(s =~= a + b + v + c + w + d + x + e + y + f);
    let none = Seq::<char>::empty();
    assert(s =~= a + b + v + (c + w) + (d + x + e + y + f));
    lemma_middle_is_found(a, b, v, c + w, d + x + e + y + f);
    assert(s =~= (a + b + v) + c + w + (d + x) + (e + y + f));
    lemma_middle_is_found(a + b + v, c, w, d + x, e + y + f);
    assert(s =~= (a + b + v + c + w) + d + x + (e + y) + f);
    lemma_middle_is_found(a + b + v + c + w, d, x, e + y, f);
    let front = a + b + v + c + w + d + x;
    assert(s =~= front + e + y + f + none);
    lemma_middle_is_found(front, e, y, f, none);
}

/// A text is filled with blanks behind it up to the width, and never cut.
pub proof fn law_columns_are_filled(s: Seq<char>, width: nat)
    ensures
        s.is_prefix_of(filled(s, width)),
        filled(s, width).len() == (if s.len() >= width {
            s.len()
        } else {
            width
        }),
        forall|i: int| s.len() <= i < filled(s, width).len() ==> #[trigger] filled(s, width)[i]
            == ' ',
{
    assert(s =~= filled(s, width).subrange(0, s.len() as int));
}

/// The tables have a row for each entry, in their order, with its marks and its
/// parts in their columns.
pub proof fn law_tables_have_a_row_for_each_entry(
    v: Seq<VersionEntry>,
    e: VersionEntry,
    peers: Seq<PeerRow>,
    p: PeerRow,
    names: Seq<Seq<char>>,
    name: Seq<char>,
    log: Seq<AuditLog>,
    entry: AuditLog,
)
    ensures
        version_rows(Seq::empty()).len() == 0,
        version_rows(v.push(e)) == version_rows(v) + (filled(e.version@, 12) + " "@ + filled(
            if e.is_current {
                "*"@
            } else {
                Seq::empty()
            },
            10,
        ) + " "@ + filled(
            if e.is_rollback {
                "*"@
            } else {
                Seq::empty()
            },
            10,
        ) + "\n"@),
        peer_lines(Seq::empty()).len() == 0,
        peer_lines(peers.push(p)) == peer_lines(peers) + (filled(p.identity@, 15) + " "@ + filled(
            p.status@,
            12,
        ) + " "@ + filled(truth(p.probation), 10) + " "@ + filled(p.cpu@, 10) + " "@ + filled(
            p.mem@,
            10,
        ) + "\n"@),
        bullets(Seq::empty()).len() == 0,
        bullets(names.push(name)) == bullets(names) + "  - "@ + name + "\n"@,
        audit_lines(Seq::empty()).len() == 0,
        audit_lines(log.push(entry)) == audit_lines(log) + audit_line(entry) + "\n"@,
{
    assert(v.push(e).drop_last() =~= v);
    assert(peers.push(p).drop_last() =~= peers);
    assert(names.push(name).drop_last() =~= names);
    assert(log.push(entry).drop_last() =~= log);
}

/// A line of the audit log shows when, what, for which version and the details.
pub proof fn law_audit_lines_show_the_entry(e: AuditLog)
    ensures
        contains_text(audit_line(e), "["@ + e.timestamp@ + "] "@ + e.event@),
        e.version is Some ==> contains_text(audit_line(e), "version="@ + e.version->0@),
        contains_text(audit_line(e), json_compact(e.details.tree())),
{
    let s = audit_line(e);
    let a = "["@ + e.timestamp@ + "] "@ + e.event@;
    let v = text_or(opt_text(e.version), "-"@);
    let d = json_compact(e.details.tree());
    reveal_strlit(" version=");
    reveal_strlit("version=");
    assert(" version="@ =~= seq![' '] + "version="@);
    assert(s =~= Seq::<char>::empty() + a + (" version="@ + v + " "@ + d));
    law_parts_are_found(Seq::empty(), a, " version="@ + v + " "@ + d, s);
    assert(s =~= (a + seq![' ']) + ("version="@ + v) + (" "@ + d));
    law_parts_are_found(a + seq![' '], "version="@ + v, " "@ + d, s);
    assert(s =~= (a + " version="@ + v + " "@) + d + Seq::<char>::empty());
    law_parts_are_found(a + " version="@ + v + " "@, d, Seq::empty(), s);
}

/// Messages of an administrator go to the boot process under its name.
pub proof fn law_admin_messages_go_to_the_boot_process(
    identity: Seq<char>,
    msg_type: Seq<char>,
    id: Seq<char>,
    payload: JsonTree,
)
    ensures
        admin_letter(identity, msg_type, id, payload).from == identity,
        admin_letter(identity, msg_type, id, payload).to == "boot"@,
        admin_letter(identity, msg_type, id, payload).msg_type == msg_type,
        admin_letter(identity, msg_type, id, payload).id == id,
        admin_letter(identity, msg_type, id, payload).payload == payload,
        admin_hello().get_text("protocol_version"@) == Some("1.0"@),
        admin_hello().get("capabilities"@) == Some(text_list(seq!["admin"@])),
{
    reveal_strlit("protocol_version");
    reveal_strlit("capabilities");
    assert("protocol_version"@.len() == 16);
    assert("capabilities"@.len() == 12);
}

/// The agent is reached on this machine at the port that the status names, and
/// not at all where it names none.
pub proof fn law_agent_is_reached_at_its_port(status: JsonTree, n: serde_json::Number, port: u64)
    requires
        number_as_u64(n) == Some(port),
        port < 65536,
    ensures
        status.get("peripheral_http_port"@) == Some(JsonTree::Number(n)) ==> agent_address(status)
            == Some("http://localhost:"@ + dec(port as nat)),
        status.get("peripheral_http_port"@) is None ==> agent_address(status) is None,
{
}

/// A rollback, a runlevel request, a clean-up and a query are reported as
/// successes exactly where they are, and as failures with their reasons.
pub proof fn law_failures_are_reported_with_their_reasons(
    rollback: AdminForceRollbackResponse,
    level: RunlevelRequestResult,
    cleanup: AdminCleanupVersionsResponse,
    a: Result<String, String>,
    b: Result<String, String>,
    c: Result<String, String>,
)
    requires
        call_ensures(format_rollback, (&rollback,), a),
        call_ensures(format_runlevel_result, (&level,), b),
        call_ensures(format_cleanup, (&cleanup,), c),
    ensures
        a is Ok <==> rollback.success,
        rollback.success && rollback.rolled_back_to is Some ==> contains_text(
            a->Ok_0@,
            rollback.rolled_back_to->0@,
        ),
        !rollback.success && rollback.error is Some ==> contains_text(
            a->Err_0@,
            rollback.error->0@,
        ),
        b is Ok <==> level.accepted,
        level.accepted ==> contains_text(
            b->Ok_0@,
            dec(level.from as nat) + " -> "@ + dec(level.to as nat),
        ),
        !level.accepted ==> contains_text(b->Err_0@, level.reason@),
        c is Err <==> cleanup.error is Some,
        c is Err ==> contains_text(c->Err_0@, cleanup.error->0@),
{
    let none = Seq::<char>::empty();
    if rollback.success && rollback.rolled_back_to is Some {
        let t = rollback.rolled_back_to->0@;
        assert(a->Ok_0@ =~= "Rollback successful. Now at: "@ + t + none);
        law_parts_are_found("Rollback successful. Now at: "@, t, none, a->Ok_0@);
    }
    if !rollback.success && rollback.error is Some {
        let t = rollback.error->0@;
        assert(a->Err_0@ =~= "Rollback failed: "@ + t + none);
        law_parts_are_found("Rollback failed: "@, t, none, a->Err_0@);
    }
    if level.accepted {
        let t = dec(level.from as nat) + " -> "@ + dec(level.to as nat);
        assert(b->Ok_0@ =~= "Runlevel changed: "@ + t + none);
        law_parts_are_found("Runlevel changed: "@, t, none, b->Ok_0@);
    } else {
        assert(b->Err_0@ =~= "Runlevel change rejected: "@ + level.reason@ + none);
        law_parts_are_found("Runlevel change rejected: "@, level.reason@, none, b->Err_0@);
    }
    if c is Err {
        let t = cleanup.error->0@;
        assert(c->Err_0@ =~= "Cleanup error: "@ + t + none);
        law_parts_are_found("Cleanup error: "@, t, none, c->Err_0@);
    }
}

} // verus!
