//! Protocol evolution by negotiated extensions: new message types are adopted
//! at once, breaking changes need a human signature.

use crate::json::{json_compact, Json, JsonTree};
use crate::json::lemma_tree;
use crate::split::{
    law_pieces_stand_between_separators, lemma_texts_push, pieces, split_char, texts,
};
use crate::table::Table;
use crate::text::{dec, decimal, is_digit, lemma_dec_round_trip, parsed_u32, read_u32};
use vstd::prelude::*;
use vstd::string::*;

verus! {

/// What the registry knows of a message type.
pub struct MessageTypeEntry {
    pub category: String,
    pub direction: String,
    pub schema: Json,
    pub added_in: Option<String>,
}

/// The content of a `MessageTypeEntry`.
pub ghost struct MessageType {
    pub category: Seq<char>,
    pub direction: Seq<char>,
    pub schema: JsonTree,
    pub added_in: Option<Seq<char>>,
}

impl View for MessageTypeEntry {
    type V = MessageType;

    open spec fn view(&self) -> MessageType {
        MessageType {
            category: self.category@,
            direction: self.direction@,
            schema: self.schema.tree(),
            added_in: match self.added_in {
                Some(v) => Some(v@),
                None => None,
            },
        }
    }
}

/// The known message types and the protocol's version.
pub struct ProtocolRegistry {
    pub protocol_version: String,
    pub messages: Table<MessageTypeEntry>,
}

/// The content of a `ProtocolRegistry`.
pub ghost struct Registry {
    pub version: Seq<char>,
    pub messages: Map<Seq<char>, MessageType>,
}

impl View for ProtocolRegistry {
    type V = Registry;

    open spec fn view(&self) -> Registry {
        Registry {
            version: self.protocol_version@,
            messages: self.messages@.map_values(|e: MessageTypeEntry| e@),
        }
    }
}

impl ProtocolRegistry {
    /// The table is in order and every schema is a document.
    pub open spec fn wf(self) -> bool {
        &&& self.messages.wf()
        &&& forall|k: Seq<char>|
            self.messages@.contains_key(k) ==> (#[trigger] self.messages@[k]).schema.wf()
    }

    /// Stores an entry.
    fn put(&mut self, name: &str, entry: MessageTypeEntry)
        requires
            old(self).wf(),
            entry.schema.wf(),
        ensures
            final(self).wf(),
            final(self)@ == (Registry {
                messages: old(self)@.messages.insert(name@, entry@),
                ..old(self)@
            }),
    {
        self.messages.insert(name, entry);
        assert(self@.messages =~= old(self)@.messages.insert(name@, entry@));
    }

    /// Stores one of the types that the protocol has from the start.
    fn put_core(&mut self, name: &str, category: &str, direction: &str)
        requires
            old(self).wf(),
        ensures
            final(self).wf(),
            final(self)@ == old(self)@.with_core(name@, category@, direction@),
    {
        let fields: Vec<(String, Json)> = Vec::new();
        let schema = Json::Object(fields);
        proof {
            lemma_tree(schema);
        }
        self.put(
            name,
            MessageTypeEntry {
                category: category.to_owned(),
                direction: direction.to_owned(),
                schema,
                added_in: Some("1.0".to_owned()),
            },
        );
    }
}

impl Registry {
    /// The registry with one of the original types added.
    pub open spec fn with_core(
        self,
        name: Seq<char>,
        category: Seq<char>,
        direction: Seq<char>,
    ) -> Registry {
        Registry {
            messages: self.messages.insert(
                name,
                MessageType {
                    category,
                    direction,
                    schema: JsonTree::Object(Map::empty()),
                    added_in: Some("1.0"@),
                },
            ),
            ..self
        }
    }
}

/// The registry of a new installation.
pub open spec fn core_registry() -> Registry {
    Registry { version: "1.0"@, messages: Map::empty() }
        .with_core("Hello"@, "handshake"@, "peer->boot"@)
        .with_core("Welcome"@, "handshake"@, "boot->peer"@)
        .with_core("LeaseRenew"@, "heartbeat"@, "peer->boot"@)
        .with_core("LeaseAck"@, "heartbeat"@, "boot->peer"@)
        .with_core("RunlevelChange"@, "runlevel"@, "boot->all"@)
        .with_core("Shutdown"@, "lifecycle"@, "boot->peer"@)
        .with_core("SubmitUpdate"@, "update"@, "peripheral->boot"@)
        .with_core("CompileRequest"@, "update"@, "boot->compiler"@)
        .with_core("CompileResult"@, "update"@, "compiler->boot"@)
        .with_core("UpdateRejected"@, "update"@, "boot->peripheral"@)
        .with_core("UpdateAccepted"@, "update"@, "boot->peripheral"@)
        .with_core("GetState"@, "state"@, "peer->boot"@)
        .with_core("GetStateResponse"@, "state"@, "boot->peer"@)
        .with_core("SetState"@, "state"@, "peer->boot"@)
        .with_core("SetStateAck"@, "state"@, "boot->peer"@)
        .with_core("TestRequest"@, "judge"@, "boot->judge"@)
        .with_core("TestResult"@, "judge"@, "judge->boot"@)
        .with_core("ProbationStarted"@, "judge"@, "boot->peripheral"@)
        .with_core("ProbationEnded"@, "judge"@, "boot->peripheral"@)
        .with_core("AuditLog"@, "audit"@, "boot->audit"@)
        .with_core("ResourceViolation"@, "security"@, "boot->audit"@)
        .with_core("RunlevelRequest"@, "runlevel"@, "peer->boot"@)
        .with_core("RunlevelRequestResult"@, "runlevel"@, "boot->peer"@)
        .with_core("CapabilityEscalation"@, "security"@, "boot->audit"@)
        .with_core("ConstitutionAmendmentProposal"@, "constitution"@, "peer->boot"@)
        .with_core("ConstitutionAmendmentResult"@, "constitution"@, "boot->peer"@)
        .with_core("ProtocolExtensionProposal"@, "protocol"@, "peer->boot"@)
        .with_core("ProtocolExtensionResult"@, "protocol"@, "boot->peer"@)
}

/// The version after an extension: a breaking one starts a new major version,
/// another one counts the minor version up.
pub open spec fn bumped(version: Seq<char>, breaking: bool) -> Seq<char> {
    let parts = pieces(version, '.');
    if parts.len() == 2 {
        if breaking {
            dec(major_of(version) + 1) + ".0"@
        } else {
            dec(major_of(version)) + "."@ + dec(minor_of(version) + 1)
        }
    } else if breaking {
        "2.0"@
    } else {
        "1.1"@
    }
}

/// The first number of a version, 1 where it is not one.
pub open spec fn major_of(version: Seq<char>) -> nat {
    match parsed_u32(pieces(version, '.')[0]) {
        Some(n) => n as nat,
        None => 1,
    }
}

/// The second number of a version, 0 where it is not one.
pub open spec fn minor_of(version: Seq<char>) -> nat {
    match parsed_u32(pieces(version, '.')[1]) {
        Some(n) => n as nat,
        None => 0,
    }
}

/// The number of the version that an extension counts up stays within 32 bits.
pub open spec fn can_bump(version: Seq<char>, breaking: bool) -> bool {
    pieces(version, '.').len() == 2 ==> if breaking {
        major_of(version) < u32::MAX
    } else {
        minor_of(version) < u32::MAX
    }
}

/// The version after an extension.
pub fn bump_version(version: &str, breaking: bool) -> (r: String)
    requires
        can_bump(version@, breaking),
    ensures
        r@ == bumped(version@, breaking),
{
    let parts = split_char(version, '.');
    if parts.len() == 2 {
        assert(texts(parts@)[0] == parts@[0]@);
        assert(texts(parts@)[1] == parts@[1]@);
        let major: u32 = match read_u32(parts[0].as_str()) {
            Some(n) => n,
            None => 1,
        };
        let minor: u32 = match read_u32(parts[1].as_str()) {
            Some(n) => n,
            None => 0,
        };
        if breaking {
            let mut r = decimal(major as u64 + 1);
            r.append(".0");
            r
        } else {
            let mut r = decimal(major as u64);
            r.append(".");
            r.append(decimal(minor as u64 + 1).as_str());
            r
        }
    } else if breaking {
        "2.0".to_owned()
    } else {
        "1.1".to_owned()
    }
}

/// The record of an accepted extension.
pub struct ExtensionLogEntry {
    pub timestamp: u64,
    pub old_version: String,
    pub new_version: String,
    pub breaking: bool,
    pub added_types: Vec<String>,
    pub modified_types: Vec<String>,
    pub description: String,
}

/// The proposed names that the registry already knows, or does not know, in
/// the order of the proposal.
pub open spec fn names_known(
    entries: Seq<(String, Json)>,
    messages: Map<Seq<char>, MessageType>,
    known: bool,
) -> Seq<Seq<char>>
    decreases entries.len(),
{
    if entries.len() == 0 {
        Seq::empty()
    } else {
        let before = names_known(entries.drop_last(), messages, known);
        if messages.contains_key(entries.last().0@) == known {
            before.push(entries.last().0@)
        } else {
            before
        }
    }
}

proof fn lemma_names_prefix(
    entries: Seq<(String, Json)>,
    n: int,
    messages: Map<Seq<char>, MessageType>,
)
    requires
        0 <= n <= entries.len(),
    ensures
        names_known(entries.take(n), messages, true).len() <= names_known(
            entries,
            messages,
            true,
        ).len(),
    decreases entries.len(),
{
    if n < entries.len() {
        lemma_names_prefix(entries.drop_last(), n, messages);
        assert(entries.drop_last().take(n) =~= entries.take(n));
    } else {
        assert(entries.take(n) =~= entries);
    }
}

/// What the registry stores for a proposed type.
pub open spec fn proposed_type(schema: JsonTree, version: Seq<char>) -> MessageType {
    MessageType {
        category: match schema.get_text("category"@) {
            Some(c) => c,
            None => "extension"@,
        },
        direction: match schema.get_text("direction"@) {
            Some(d) => d,
            None => "peer->boot"@,
        },
        schema,
        added_in: Some(version),
    }
}

/// The registry after the proposed types were stored under a new version.
pub open spec fn extended(r: Registry, entries: Seq<(String, Json)>, version: Seq<char>) -> Registry
    decreases entries.len(),
{
    if entries.len() == 0 {
        Registry { version, ..r }
    } else {
        let before = extended(r, entries.drop_last(), version);
        Registry {
            messages: before.messages.insert(
                entries.last().0@,
                proposed_type(entries.last().1.tree(), version),
            ),
            ..before
        }
    }
}

/// An extension leaves the registry under the new version.
pub proof fn lemma_extended_version(r: Registry, entries: Seq<(String, Json)>, version: Seq<char>)
    ensures
        extended(r, entries, version).version == version,
    decreases entries.len(),
{
    if entries.len() > 0 {
        lemma_extended_version(r, entries.drop_last(), version);
    }
}

/// The entries of a proposal.
pub open spec fn proposed_entries(j: Json) -> Seq<(String, Json)> {
    match j {
        Json::Object(v) => v@,
        _ => Seq::empty(),
    }
}

/// Whether an extension changes the meaning of messages that exist.
pub open spec fn is_breaking(r: Registry, new_messages: Json, breaking: bool) -> bool {
    breaking || names_known(proposed_entries(new_messages), r.messages, true).len() > 0
}

/// Why an extension is refused, if it is: it names no types, or it is breaking
/// and not authorised.
pub open spec fn extension_error(
    r: Registry,
    new_messages: Json,
    breaking: bool,
    authorized: Option<bool>,
) -> Option<Seq<char>> {
    if !(new_messages is Object) {
        Some("new_messages must be a JSON object"@)
    } else if proposed_entries(new_messages).len() == 0 {
        Some("No message types proposed"@)
    } else if is_breaking(r, new_messages, breaking) && authorized is None {
        Some("Breaking protocol changes require human HMAC signature"@)
    } else if is_breaking(r, new_messages, breaking) && !authorized->Some_0 {
        Some("Breaking protocol change requires valid human HMAC signature"@)
    } else {
        None
    }
}

/// Where the extension goes through, there is a version for it.
pub open spec fn can_extend(
    r: Registry,
    new_messages: Json,
    breaking: bool,
    authorized: Option<bool>,
) -> bool {
    extension_error(r, new_messages, breaking, authorized) is None ==> can_bump(
        r.version,
        is_breaking(r, new_messages, breaking),
    )
}

/// The text that the signature of an extension is made over.
pub open spec fn extension_payload(description: Seq<char>, new_messages: JsonTree) -> Seq<char> {
    "protocol_extension:"@ + description + ":"@ + json_compact(new_messages)
}

/// The text that the signature of an extension is made over.
pub fn build_extension_payload(description: &str, new_messages: &Json) -> (s: String)
    requires
        new_messages.wf(),
    ensures
        s@ == extension_payload(description@, new_messages.tree()),
{
    let mut s = "protocol_extension:".to_owned();
    s.append(description);
    s.append(":");
    s.append(new_messages.compact().as_str());
    s
}

/// What a decision on an extension has to be.
pub open spec fn extension_decided(
    before: Registry,
    after: Registry,
    new_messages: Json,
    breaking: bool,
    description: Seq<char>,
    authorized: Option<bool>,
    timestamp: u64,
    r: Result<ExtensionLogEntry, String>,
) -> bool {
    match extension_error(before, new_messages, breaking, authorized) {
        Some(e) => r is Err && r->Err_0@ == e && after == before,
        None => {
            let entries = proposed_entries(new_messages);
            let b = is_breaking(before, new_messages, breaking);
            let version = bumped(before.version, b);
            &&& after == extended(before, entries, version)
            &&& r is Ok
            &&& r->Ok_0.timestamp == timestamp
            &&& r->Ok_0.old_version@ == before.version
            &&& r->Ok_0.new_version@ == version
            &&& r->Ok_0.breaking == b
            &&& texts(r->Ok_0.added_types@) == names_known(entries, before.messages, false)
            &&& texts(r->Ok_0.modified_types@) == names_known(entries, before.messages, true)
            &&& r->Ok_0.description@ == description
        },
    }
}

/// Whether a signature check can have given `ok` on a payload.
pub open spec fn check_gives<F: Fn(&str, &str) -> bool>(
    verify: F,
    payload: Seq<char>,
    signature: &str,
    ok: bool,
) -> bool {
    exists|p: &str| #[trigger] p@ == payload && verify.ensures((p, signature), ok)
}

/// Keeps the registry and decides on extensions.
pub struct ProtocolManager {
    registry: ProtocolRegistry,
}

impl View for ProtocolManager {
    type V = Registry;

    closed spec fn view(&self) -> Registry {
        self.registry@
    }
}

impl ProtocolManager {
    pub closed spec fn wf(self) -> bool {
        self.registry.wf()
    }

    /// A manager for the registry that was stored, or for a new one.
    pub fn new(stored: Option<ProtocolRegistry>) -> (m: ProtocolManager)
        requires
            stored is Some ==> stored->Some_0.wf(),
        ensures
            m.wf(),
            m@ == (match stored {
                Some(r) => r@,
                None => core_registry(),
            }),
    {
        match stored {
            Some(registry) => ProtocolManager { registry },
            None => ProtocolManager { registry: ProtocolManager::default_registry() },
        }
    }

    /// The registry of a new installation.
    pub fn default_registry() -> (r: ProtocolRegistry)
        ensures
            r.wf(),
            r@ == core_registry(),
    {
        let mut r = ProtocolRegistry {
            protocol_version: "1.0".to_owned(),
            messages: Table::new(),
        };
        assert(r@.messages =~= Map::empty());
        r.put_core("Hello", "handshake", "peer->boot");
        r.put_core("Welcome", "handshake", "boot->peer");
        r.put_core("LeaseRenew", "heartbeat", "peer->boot");
        r.put_core("LeaseAck", "heartbeat", "boot->peer");
        r.put_core("RunlevelChange", "runlevel", "boot->all");
        r.put_core("Shutdown", "lifecycle", "boot->peer");
        r.put_core("SubmitUpdate", "update", "peripheral->boot");
        r.put_core("CompileRequest", "update", "boot->compiler");
        r.put_core("CompileResult", "update", "compiler->boot");
        r.put_core("UpdateRejected", "update", "boot->peripheral");
        r.put_core("UpdateAccepted", "update", "boot->peripheral");
        r.put_core("GetState", "state", "peer->boot");
        r.put_core("GetStateResponse", "state", "boot->peer");
        r.put_core("SetState", "state", "peer->boot");
        r.put_core("SetStateAck", "state", "boot->peer");
        r.put_core("TestRequest", "judge", "boot->judge");
        r.put_core("TestResult", "judge", "judge->boot");
        r.put_core("ProbationStarted", "judge", "boot->peripheral");
        r.put_core("ProbationEnded", "judge", "boot->peripheral");
        r.put_core("AuditLog", "audit", "boot->audit");
        r.put_core("ResourceViolation", "security", "boot->audit");
        r.put_core("RunlevelRequest", "runlevel", "peer->boot");
        r.put_core("RunlevelRequestResult", "runlevel", "boot->peer");
        r.put_core("CapabilityEscalation", "security", "boot->audit");
        r.put_core("ConstitutionAmendmentProposal", "constitution", "peer->boot");
        r.put_core("ConstitutionAmendmentResult", "constitution", "boot->peer");
        r.put_core("ProtocolExtensionProposal", "protocol", "peer->boot");
        r.put_core("ProtocolExtensionResult", "protocol", "boot->peer");
        r
    }

    pub fn current_version(&self) -> (v: &str)
        ensures
            v@ == self@.version,
    {
        self.registry.protocol_version.as_str()
    }

    pub fn is_known_message(&self, msg_type: &str) -> (b: bool)
        requires
            self.wf(),
        ensures
            b == self@.messages.contains_key(msg_type@),
    {
        self.registry.messages.contains(msg_type)
    }

    /// The registry, to be stored.
    pub fn registry(&self) -> (r: &ProtocolRegistry)
        ensures
            r@ == self@,
            self.wf() ==> r.wf(),
    {
        &self.registry
    }

    /// Whether a proposal counts as breaking.
    pub fn is_breaking_proposal(&self, new_messages: &Json, breaking: bool) -> (b: bool)
        requires
            self.wf(),
        ensures
            b == is_breaking(self@, *new_messages, breaking),
    {
        match new_messages {
            Json::Object(entries) => {
                let mut i: usize = 0;
                assert(entries@.take(0).len() == 0);
                while i < entries.len()
                    invariant
                        i <= entries@.len(),
                        self.wf(),
                        *new_messages is Object,
                        new_messages->Object_0 == *entries,
                        names_known(entries@.take(i as int), self@.messages, true).len() == 0,
                    decreases entries@.len() - i,
                {
                    proof {
                        assert(entries@.take(i + 1).drop_last() =~= entries@.take(i as int));
                    }
                    if self.registry.messages.contains(entries[i].0.as_str()) {
                        proof {
                            lemma_names_prefix(entries@, i + 1, self@.messages);
                        }
                        return true;
                    }
                    i += 1;
                }
                assert(entries@.take(entries@.len() as int) =~= entries@);
                breaking
            },
            _ => breaking,
        }
    }

    /// Decides on an extension. `authorized` says whether the signature was
    /// good, or nothing where there was none to check.
    pub fn decide_extension(
        &mut self,
        new_messages: &Json,
        breaking: bool,
        description: &str,
        authorized: Option<bool>,
        timestamp: u64,
    ) -> (r: Result<ExtensionLogEntry, String>)
        requires
            old(self).wf(),
            new_messages.wf(),
            can_extend(old(self)@, *new_messages, breaking, authorized),
        ensures
            final(self).wf(),
            extension_decided(
                old(self)@,
                final(self)@,
                *new_messages,
                breaking,
                description@,
                authorized,
                timestamp,
                r,
            ),
    {
        let entries = match new_messages {
            Json::Object(v) => v,
            _ => {
                return Err("new_messages must be a JSON object".to_owned());
            },
        };
        if entries.len() == 0 {
            return Err("No message types proposed".to_owned());
        }
        let ghost start = self@;
        let mut added_types: Vec<String> = Vec::new();
        let mut modified_types: Vec<String> = Vec::new();
        let mut i: usize = 0;
        proof {
            assert(texts(added_types@) =~= names_known(entries@.take(0), start.messages, false));
            assert(texts(modified_types@) =~= names_known(entries@.take(0), start.messages, true));
        }
        while i < entries.len()
            invariant
                i <= entries@.len(),
                self.wf(),
                self@ == start,
                texts(added_types@) == names_known(
                    entries@.take(i as int),
                    start.messages,
                    false,
                ),
                texts(modified_types@) == names_known(
                    entries@.take(i as int),
                    start.messages,
                    true,
                ),
            decreases entries@.len() - i,
        {
            proof {
                assert(entries@.take(i + 1).drop_last() =~= entries@.take(i as int));
            }
            let name = entries[i].0.clone();
            if self.registry.messages.contains(name.as_str()) {
                proof {
                    lemma_texts_push(modified_types@, name);
                }
                modified_types.push(name);
            } else {
                proof {
                    lemma_texts_push(added_types@, name);
                }
                added_types.push(name);
            }
            i += 1;
        }
        assert(entries@.take(entries@.len() as int) =~= entries@);
        assert(texts(modified_types@).len() == modified_types@.len());
        let is_breaking = breaking || modified_types.len() > 0;
        if is_breaking {
            match authorized {
                Some(ok) => {
                    if !ok {
                        return Err(
                            "Breaking protocol change requires valid human HMAC signature".to_owned(),
                        );
                    }
                },
                None => {
                    return Err(
                        "Breaking protocol changes require human HMAC signature".to_owned(),
                    );
                },
            }
        }
        let new_version = bump_version(self.registry.protocol_version.as_str(), is_breaking);
        let old_version = self.registry.protocol_version.clone();
        self.registry.protocol_version = new_version.clone();
        let mut k: usize = 0;
        assert(self@ == extended(start, entries@.take(0), new_version@));
        while k < entries.len()
            invariant
                k <= entries@.len(),
                self.wf(),
                new_messages.wf(),
                *new_messages is Object,
                new_messages->Object_0 == *entries,
                self@ == extended(start, entries@.take(k as int), new_version@),
            decreases entries@.len() - k,
        {
            proof {
                assert(entries@.take(k + 1).drop_last() =~= entries@.take(k as int));
                assert(entries[k as int].1.wf());
            }
            let schema = &entries[k].1;
            let category = match schema.get_str("category") {
                Some(c) => c.to_owned(),
                None => "extension".to_owned(),
            };
            let direction = match schema.get_str("direction") {
                Some(d) => d.to_owned(),
                None => "peer->boot".to_owned(),
            };
            let entry = MessageTypeEntry {
                category,
                direction,
                schema: schema.copy(),
                added_in: Some(new_version.clone()),
            };
            self.registry.put(entries[k].0.as_str(), entry);
            k += 1;
        }
        proof {
            assert(entries@.take(entries@.len() as int) =~= entries@);
            lemma_extended_version(start, entries@, new_version@);
        }
        Ok(
            ExtensionLogEntry {
                timestamp,
                old_version,
                new_version,
                breaking: is_breaking,
                added_types,
                modified_types,
                description: description.to_owned(),
            },
        )
    }

    /// Proposes an extension. Only a breaking one has its signature checked.
    pub fn propose_extension<F: Fn(&str, &str) -> bool>(
        &mut self,
        new_messages: &Json,
        breaking: bool,
        description: &str,
        signature_verifier: Option<F>,
        signature: Option<&str>,
        timestamp: u64,
    ) -> (r: Result<ExtensionLogEntry, String>)
        requires
            old(self).wf(),
            new_messages.wf(),
            can_extend(old(self)@, *new_messages, breaking, Some(true)),
            signature_verifier is Some ==> forall|p: &str, s: &str| #[trigger]
                signature_verifier->Some_0.requires((p, s)),
        ensures
            final(self).wf(),
            is_breaking(old(self)@, *new_messages, breaking) && signature_verifier is Some
                && signature is Some ==> exists|ok: bool|
                #![trigger check_gives(signature_verifier->Some_0, extension_payload(description@, new_messages.tree()), signature->Some_0, ok)]
                check_gives(
                    signature_verifier->Some_0,
                    extension_payload(description@, new_messages.tree()),
                    signature->Some_0,
                    ok,
                ) && extension_decided(
                    old(self)@,
                    final(self)@,
                    *new_messages,
                    breaking,
                    description@,
                    Some(ok),
                    timestamp,
                    r,
                ),
            !(is_breaking(old(self)@, *new_messages, breaking) && signature_verifier is Some
                && signature is Some) ==> extension_decided(
                old(self)@,
                final(self)@,
                *new_messages,
                breaking,
                description@,
                None,
                timestamp,
                r,
            ),
    {
        let is_breaking = self.is_breaking_proposal(new_messages, breaking);
        let authorized = match (&signature_verifier, signature) {
            (Some(verify), Some(sig)) if is_breaking => {
                let payload = build_extension_payload(description, new_messages);
                let p = payload.as_str();
                let ok = verify(p, sig);
                proof {
                    assert(p@ == extension_payload(description@, new_messages.tree()));
                    assert(check_gives(
                        *verify,
                        extension_payload(description@, new_messages.tree()),
                        sig,
                        ok,
                    ));
                }
                Some(ok)
            },
            _ => None,
        };
        self.decide_extension(new_messages, breaking, description, authorized, timestamp)
    }
}

/// A backward-compatible extension is adopted without any signature: only new
/// names, and not declared breaking.
pub proof fn law_compatible_extension_needs_no_signature(
    r: Registry,
    new_messages: Json,
    authorized: Option<bool>,
)
    requires
        new_messages is Object,
        proposed_entries(new_messages).len() > 0,
        forall|i: int|
            0 <= i < proposed_entries(new_messages).len() ==> !r.messages.contains_key(
                (#[trigger] proposed_entries(new_messages)[i]).0@,
            ),
    ensures
        extension_error(r, new_messages, false, authorized) is None,
{
    lemma_no_names(proposed_entries(new_messages), r.messages);
}

proof fn lemma_no_names(entries: Seq<(String, Json)>, messages: Map<Seq<char>, MessageType>)
    requires
        forall|i: int|
            0 <= i < entries.len() ==> !messages.contains_key((#[trigger] entries[i]).0@),
    ensures
        names_known(entries, messages, true).len() == 0,
    decreases entries.len(),
{
    if entries.len() > 0 {
        let d = entries.drop_last();
        assert forall|i: int| 0 <= i < d.len() implies !messages.contains_key(
            (#[trigger] d[i]).0@,
        ) by {
            assert(d[i] == entries[i]);
        }
        lemma_no_names(d, messages);
        assert(entries.last() == entries[entries.len() - 1]);
    }
}

/// A change to a known message type goes through only if it is authorised,
/// whether or not it was declared breaking.
pub proof fn law_known_types_change_only_when_authorized(
    r: Registry,
    new_messages: Json,
    breaking: bool,
    authorized: Option<bool>,
    i: int,
)
    requires
        0 <= i < proposed_entries(new_messages).len(),
        r.messages.contains_key(proposed_entries(new_messages)[i].0@),
        extension_error(r, new_messages, breaking, authorized) is None,
    ensures
        authorized == Some(true),
{
    let entries = proposed_entries(new_messages);
    lemma_names_prefix(entries, i + 1, r.messages);
    assert(entries.take(i + 1).last() == entries[i]);
}

/// An accepted extension knows every proposed type and forgets none.
pub proof fn law_extension_keeps_known_types(
    r: Registry,
    entries: Seq<(String, Json)>,
    version: Seq<char>,
    name: Seq<char>,
)
    ensures
        extended(r, entries, version).messages.contains_key(name) <==> r.messages.contains_key(name)
            || exists|i: int| 0 <= i < entries.len() && (#[trigger] entries[i]).0@ == name,
    decreases entries.len(),
{
    if entries.len() > 0 {
        let d = entries.drop_last();
        law_extension_keeps_known_types(r, d, version, name);
        if exists|i: int| 0 <= i < entries.len() && (#[trigger] entries[i]).0@ == name {
            let i = choose|i: int| 0 <= i < entries.len() && (#[trigger] entries[i]).0@ == name;
            if i < d.len() {
                assert(d[i].0@ == name);
            }
        }
        if exists|i: int| 0 <= i < d.len() && (#[trigger] d[i]).0@ == name {
            let i = choose|i: int| 0 <= i < d.len() && (#[trigger] d[i]).0@ == name;
            assert(entries[i].0@ == name);
        }
        if entries.last().0@ == name {
            assert(entries[entries.len() - 1].0@ == name);
        }
    }
}

proof fn lemma_number_is_read_back(n: nat)
    requires
        n <= u32::MAX,
    ensures
        parsed_u32(dec(n)) == Some(n as u32),
        forall|i: int| 0 <= i < dec(n).len() ==> #[trigger] dec(n)[i] != '.',
{
    lemma_dec_round_trip(n);
    assert forall|i: int| 0 <= i < dec(n).len() implies #[trigger] dec(n)[i] != '.' by {
        assert(is_digit(dec(n)[i]));
    }
    assert(is_digit(dec(n)[0]));
}

/// A breaking extension of a version with two numbers counts the first one up
/// and begins the second anew; any other counts the second one up.
pub proof fn law_versions_are_counted_up(major: nat, minor: nat)
    requires
        major < u32::MAX,
        minor < u32::MAX,
    ensures
        bumped(dec(major) + seq!['.'] + dec(minor), true) == dec(major + 1) + seq!['.'] + dec(0),
        bumped(dec(major) + seq!['.'] + dec(minor), false) == dec(major) + seq!['.'] + dec(
            minor + 1,
        ),
{
    let a = dec(major);
    let b = dec(minor);
    lemma_number_is_read_back(major);
    lemma_number_is_read_back(minor);
    law_pieces_stand_between_separators(a, b, '.');
    law_pieces_stand_between_separators(b, a, '.');
    let v = a + seq!['.'] + b;
    assert(pieces(v, '.') =~= seq![a, b]);
    reveal_strlit(".0");
    reveal_strlit(".");
    assert("."@ =~= seq!['.']);
    lemma_dec_round_trip(0);
    assert(dec(0) =~= seq!['0']);
    assert(".0"@ =~= seq!['.'] + dec(0));
    assert(bumped(v, true) =~= dec(major + 1) + seq!['.'] + dec(0));
}

/// An extension is refused exactly where it is no object, names nothing, or is
/// breaking without a valid signature.
pub proof fn law_extensions_are_refused_for_these_reasons(
    r: Registry,
    new_messages: Json,
    breaking: bool,
    authorized: Option<bool>,
)
    ensures
        extension_error(r, new_messages, breaking, authorized) is None <==> new_messages is Object
            && proposed_entries(new_messages).len() > 0 && (is_breaking(r, new_messages, breaking)
            ==> authorized == Some(true)),
        breaking ==> is_breaking(r, new_messages, breaking),
{
}

/// An extension is breaking where it says so or names a type that is known.
pub proof fn law_changing_known_types_is_breaking(r: Registry, new_messages: Json)
    ensures
        is_breaking(r, new_messages, false) <==> exists|i: int|
            0 <= i < proposed_entries(new_messages).len() && r.messages.contains_key(
                (#[trigger] proposed_entries(new_messages)[i]).0@,
            ),
{
    let entries = proposed_entries(new_messages);
    if is_breaking(r, new_messages, false) {
        if forall|i: int|
            0 <= i < entries.len() ==> !r.messages.contains_key((#[trigger] entries[i]).0@) {
            lemma_no_names(entries, r.messages);
        }
    }
    if exists|i: int|
        0 <= i < entries.len() && r.messages.contains_key((#[trigger] entries[i]).0@) {
        let i = choose|i: int|
            0 <= i < entries.len() && r.messages.contains_key((#[trigger] entries[i]).0@);
        lemma_names_prefix(entries, i + 1, r.messages);
        assert(entries.take(i + 1).last() == entries[i]);
    }
}

/// The names of a proposal are told apart by whether they are known, and each is
/// listed in its place.
pub proof fn law_proposed_names_are_known_or_new(
    entries: Seq<(String, Json)>,
    e: (String, Json),
    messages: Map<Seq<char>, MessageType>,
    known: bool,
)
    ensures
        names_known(Seq::empty(), messages, known).len() == 0,
        messages.contains_key(e.0@) == known ==> names_known(entries.push(e), messages, known)
            == names_known(entries, messages, known).push(e.0@),
        messages.contains_key(e.0@) != known ==> names_known(entries.push(e), messages, known)
            == names_known(entries, messages, known),
{
    assert(entries.push(e).drop_last() =~= entries);
}

/// The types of a proposal are stored under their names as they are proposed,
/// and no other type changes.
pub proof fn law_proposed_types_are_stored(
    r: Registry,
    entries: Seq<(String, Json)>,
    e: (String, Json),
    version: Seq<char>,
    other: Seq<char>,
)
    requires
        other != e.0@,
    ensures
        ({
            let t = extended(r, entries.push(e), version);
            let before = extended(r, entries, version);
            &&& t.version == version
            &&& t.messages.contains_key(e.0@)
            &&& t.messages[e.0@].schema == e.1.tree()
            &&& t.messages[e.0@].added_in == Some(version)
            &&& t.messages.contains_key(other) == before.messages.contains_key(other)
            &&& before.messages.contains_key(other) ==> t.messages[other] == before.messages[other]
        }),
        extended(r, Seq::empty(), version).messages == r.messages,
{
    lemma_extended_version(r, entries.push(e), version);
    assert(entries.push(e).drop_last() =~= entries);
}

/// A proposed type has the category and the direction that its schema names, or
/// else those of an extension that a peer sends.
pub proof fn law_proposed_types_say_what_they_are(
    schema: JsonTree,
    version: Seq<char>,
    c: Seq<char>,
)
    ensures
        schema.get("category"@) == Some(JsonTree::Text(c)) ==> proposed_type(
            schema,
            version,
        ).category == c,
        schema.get("category"@) is None ==> proposed_type(schema, version).category
            == "extension"@,
        schema.get("direction"@) == Some(JsonTree::Text(c)) ==> proposed_type(
            schema,
            version,
        ).direction == c,
        schema.get("direction"@) is None ==> proposed_type(schema, version).direction
            == "peer->boot"@,
{
}

/// What is signed holds the description and the proposed types.
pub proof fn law_signatures_cover_the_proposal(description: Seq<char>, new_messages: JsonTree)
    ensures
        extension_payload(description, new_messages) == "protocol_extension:"@ + description + ":"@
            + json_compact(new_messages),
{
}

/// A decision leaves the registry alone where it refuses, and else knows the
/// types under the next version.
pub proof fn law_decisions_change_the_registry_or_not(
    before: Registry,
    after: Registry,
    new_messages: Json,
    breaking: bool,
    description: Seq<char>,
    authorized: Option<bool>,
    timestamp: u64,
    r: Result<ExtensionLogEntry, String>,
)
    requires
        extension_decided(
            before,
            after,
            new_messages,
            breaking,
            description,
            authorized,
            timestamp,
            r,
        ),
    ensures
        r is Err ==> after == before,
        r is Ok <==> extension_error(before, new_messages, breaking, authorized) is None,
        r is Ok ==> {
            &&& after.version == r->Ok_0.new_version@
            &&& r->Ok_0.old_version@ == before.version
            &&& r->Ok_0.timestamp == timestamp
            &&& r->Ok_0.description@ == description
            &&& after.version == bumped(
                before.version,
                is_breaking(before, new_messages, breaking),
            )
            &&& r->Ok_0.breaking <==> breaking || r->Ok_0.modified_types@.len() > 0
        },
{
    let version = bumped(before.version, is_breaking(before, new_messages, breaking));
    lemma_extended_version(before, proposed_entries(new_messages), version);
    if r is Ok {
        assert(texts(r->Ok_0.modified_types@).len() == r->Ok_0.modified_types@.len());
    }
}

proof fn lemma_type_names()
    ensures
        "Hello"@ != "Welcome"@,
        "Hello"@ != "LeaseRenew"@,
        "Hello"@ != "LeaseAck"@,
        "Hello"@ != "RunlevelChange"@,
        "Hello"@ != "Shutdown"@,
        "Hello"@ != "SubmitUpdate"@,
        "Hello"@ != "CompileRequest"@,
        "Hello"@ != "CompileResult"@,
        "Hello"@ != "UpdateRejected"@,
        "Hello"@ != "UpdateAccepted"@,
        "Hello"@ != "GetState"@,
        "Hello"@ != "GetStateResponse"@,
        "Hello"@ != "SetState"@,
        "Hello"@ != "SetStateAck"@,
        "Hello"@ != "TestRequest"@,
        "Hello"@ != "TestResult"@,
        "Hello"@ != "ProbationStarted"@,
        "Hello"@ != "ProbationEnded"@,
        "Hello"@ != "AuditLog"@,
        "Hello"@ != "ResourceViolation"@,
        "Hello"@ != "RunlevelRequest"@,
        "Hello"@ != "RunlevelRequestResult"@,
        "Hello"@ != "CapabilityEscalation"@,
        "Hello"@ != "ConstitutionAmendmentProposal"@,
        "Hello"@ != "ConstitutionAmendmentResult"@,
        "Hello"@ != "ProtocolExtensionProposal"@,
        "Hello"@ != "ProtocolExtensionResult"@,
        "Welcome"@ != "LeaseRenew"@,
        "Welcome"@ != "LeaseAck"@,
        "Welcome"@ != "RunlevelChange"@,
        "Welcome"@ != "Shutdown"@,
        "Welcome"@ != "SubmitUpdate"@,
        "Welcome"@ != "CompileRequest"@,
        "Welcome"@ != "CompileResult"@,
        "Welcome"@ != "UpdateRejected"@,
        "Welcome"@ != "UpdateAccepted"@,
        "Welcome"@ != "GetState"@,
        "Welcome"@ != "GetStateResponse"@,
        "Welcome"@ != "SetState"@,
        "Welcome"@ != "SetStateAck"@,
        "Welcome"@ != "TestRequest"@,
        "Welcome"@ != "TestResult"@,
        "Welcome"@ != "ProbationStarted"@,
        "Welcome"@ != "ProbationEnded"@,
        "Welcome"@ != "AuditLog"@,
        "Welcome"@ != "ResourceViolation"@,
        "Welcome"@ != "RunlevelRequest"@,
        "Welcome"@ != "RunlevelRequestResult"@,
        "Welcome"@ != "CapabilityEscalation"@,
        "Welcome"@ != "ConstitutionAmendmentProposal"@,
        "Welcome"@ != "ConstitutionAmendmentResult"@,
        "Welcome"@ != "ProtocolExtensionProposal"@,
        "Welcome"@ != "ProtocolExtensionResult"@,
        "LeaseRenew"@ != "LeaseAck"@,
        "LeaseRenew"@ != "RunlevelChange"@,
        "LeaseRenew"@ != "Shutdown"@,
        "LeaseRenew"@ != "SubmitUpdate"@,
        "LeaseRenew"@ != "CompileRequest"@,
        "LeaseRenew"@ != "CompileResult"@,
        "LeaseRenew"@ != "UpdateRejected"@,
        "LeaseRenew"@ != "UpdateAccepted"@,
        "LeaseRenew"@ != "GetState"@,
        "LeaseRenew"@ != "GetStateResponse"@,
        "LeaseRenew"@ != "SetState"@,
        "LeaseRenew"@ != "SetStateAck"@,
        "LeaseRenew"@ != "TestRequest"@,
        "LeaseRenew"@ != "TestResult"@,
        "LeaseRenew"@ != "ProbationStarted"@,
        "LeaseRenew"@ != "ProbationEnded"@,
        "LeaseRenew"@ != "AuditLog"@,
        "LeaseRenew"@ != "ResourceViolation"@,
        "LeaseRenew"@ != "RunlevelRequest"@,
        "LeaseRenew"@ != "RunlevelRequestResult"@,
        "LeaseRenew"@ != "CapabilityEscalation"@,
        "LeaseRenew"@ != "ConstitutionAmendmentProposal"@,
        "LeaseRenew"@ != "ConstitutionAmendmentResult"@,
        "LeaseRenew"@ != "ProtocolExtensionProposal"@,
        "LeaseRenew"@ != "ProtocolExtensionResult"@,
        "LeaseAck"@ != "RunlevelChange"@,
        "LeaseAck"@ != "Shutdown"@,
        "LeaseAck"@ != "SubmitUpdate"@,
        "LeaseAck"@ != "CompileRequest"@,
        "LeaseAck"@ != "CompileResult"@,
        "LeaseAck"@ != "UpdateRejected"@,
        "LeaseAck"@ != "UpdateAccepted"@,
        "LeaseAck"@ != "GetState"@,
        "LeaseAck"@ != "GetStateResponse"@,
        "LeaseAck"@ != "SetState"@,
        "LeaseAck"@ != "SetStateAck"@,
        "LeaseAck"@ != "TestRequest"@,
        "LeaseAck"@ != "TestResult"@,
        "LeaseAck"@ != "ProbationStarted"@,
        "LeaseAck"@ != "ProbationEnded"@,
        "LeaseAck"@ != "AuditLog"@,
        "LeaseAck"@ != "ResourceViolation"@,
        "LeaseAck"@ != "RunlevelRequest"@,
        "LeaseAck"@ != "RunlevelRequestResult"@,
        "LeaseAck"@ != "CapabilityEscalation"@,
        "LeaseAck"@ != "ConstitutionAmendmentProposal"@,
        "LeaseAck"@ != "ConstitutionAmendmentResult"@,
        "LeaseAck"@ != "ProtocolExtensionProposal"@,
        "LeaseAck"@ != "ProtocolExtensionResult"@,
        "RunlevelChange"@ != "Shutdown"@,
        "RunlevelChange"@ != "SubmitUpdate"@,
        "RunlevelChange"@ != "CompileRequest"@,
        "RunlevelChange"@ != "CompileResult"@,
        "RunlevelChange"@ != "UpdateRejected"@,
        "RunlevelChange"@ != "UpdateAccepted"@,
        "RunlevelChange"@ != "GetState"@,
        "RunlevelChange"@ != "GetStateResponse"@,
        "RunlevelChange"@ != "SetState"@,
        "RunlevelChange"@ != "SetStateAck"@,
        "RunlevelChange"@ != "TestRequest"@,
        "RunlevelChange"@ != "TestResult"@,
        "RunlevelChange"@ != "ProbationStarted"@,
        "RunlevelChange"@ != "ProbationEnded"@,
        "RunlevelChange"@ != "AuditLog"@,
        "RunlevelChange"@ != "ResourceViolation"@,
        "RunlevelChange"@ != "RunlevelRequest"@,
        "RunlevelChange"@ != "RunlevelRequestResult"@,
        "RunlevelChange"@ != "CapabilityEscalation"@,
        "RunlevelChange"@ != "ConstitutionAmendmentProposal"@,
        "RunlevelChange"@ != "ConstitutionAmendmentResult"@,
        "RunlevelChange"@ != "ProtocolExtensionProposal"@,
        "RunlevelChange"@ != "ProtocolExtensionResult"@,
        "Shutdown"@ != "SubmitUpdate"@,
        "Shutdown"@ != "CompileRequest"@,
        "Shutdown"@ != "CompileResult"@,
        "Shutdown"@ != "UpdateRejected"@,
        "Shutdown"@ != "UpdateAccepted"@,
        "Shutdown"@ != "GetState"@,
        "Shutdown"@ != "GetStateResponse"@,
        "Shutdown"@ != "SetState"@,
        "Shutdown"@ != "SetStateAck"@,
        "Shutdown"@ != "TestRequest"@,
        "Shutdown"@ != "TestResult"@,
        "Shutdown"@ != "ProbationStarted"@,
        "Shutdown"@ != "ProbationEnded"@,
        "Shutdown"@ != "AuditLog"@,
        "Shutdown"@ != "ResourceViolation"@,
        "Shutdown"@ != "RunlevelRequest"@,
        "Shutdown"@ != "RunlevelRequestResult"@,
        "Shutdown"@ != "CapabilityEscalation"@,
        "Shutdown"@ != "ConstitutionAmendmentProposal"@,
        "Shutdown"@ != "ConstitutionAmendmentResult"@,
        "Shutdown"@ != "ProtocolExtensionProposal"@,
        "Shutdown"@ != "ProtocolExtensionResult"@,
        "SubmitUpdate"@ != "CompileRequest"@,
        "SubmitUpdate"@ != "CompileResult"@,
        "SubmitUpdate"@ != "UpdateRejected"@,
        "SubmitUpdate"@ != "UpdateAccepted"@,
        "SubmitUpdate"@ != "GetState"@,
        "SubmitUpdate"@ != "GetStateResponse"@,
        "SubmitUpdate"@ != "SetState"@,
        "SubmitUpdate"@ != "SetStateAck"@,
        "SubmitUpdate"@ != "TestRequest"@,
        "SubmitUpdate"@ != "TestResult"@,
        "SubmitUpdate"@ != "ProbationStarted"@,
        "SubmitUpdate"@ != "ProbationEnded"@,
        "SubmitUpdate"@ != "AuditLog"@,
        "SubmitUpdate"@ != "ResourceViolation"@,
        "SubmitUpdate"@ != "RunlevelRequest"@,
        "SubmitUpdate"@ != "RunlevelRequestResult"@,
        "SubmitUpdate"@ != "CapabilityEscalation"@,
        "SubmitUpdate"@ != "ConstitutionAmendmentProposal"@,
        "SubmitUpdate"@ != "ConstitutionAmendmentResult"@,
        "SubmitUpdate"@ != "ProtocolExtensionProposal"@,
        "SubmitUpdate"@ != "ProtocolExtensionResult"@,
        "CompileRequest"@ != "CompileResult"@,
        "CompileRequest"@ != "UpdateRejected"@,
        "CompileRequest"@ != "UpdateAccepted"@,
        "CompileRequest"@ != "GetState"@,
        "CompileRequest"@ != "GetStateResponse"@,
        "CompileRequest"@ != "SetState"@,
        "CompileRequest"@ != "SetStateAck"@,
        "CompileRequest"@ != "TestRequest"@,
        "CompileRequest"@ != "TestResult"@,
        "CompileRequest"@ != "ProbationStarted"@,
        "CompileRequest"@ != "ProbationEnded"@,
        "CompileRequest"@ != "AuditLog"@,
        "CompileRequest"@ != "ResourceViolation"@,
        "CompileRequest"@ != "RunlevelRequest"@,
        "CompileRequest"@ != "RunlevelRequestResult"@,
        "CompileRequest"@ != "CapabilityEscalation"@,
        "CompileRequest"@ != "ConstitutionAmendmentProposal"@,
        "CompileRequest"@ != "ConstitutionAmendmentResult"@,
        "CompileRequest"@ != "ProtocolExtensionProposal"@,
        "CompileRequest"@ != "ProtocolExtensionResult"@,
        "CompileResult"@ != "UpdateRejected"@,
        "CompileResult"@ != "UpdateAccepted"@,
        "CompileResult"@ != "GetState"@,
        "CompileResult"@ != "GetStateResponse"@,
        "CompileResult"@ != "SetState"@,
        "CompileResult"@ != "SetStateAck"@,
        "CompileResult"@ != "TestRequest"@,
        "CompileResult"@ != "TestResult"@,
        "CompileResult"@ != "ProbationStarted"@,
        "CompileResult"@ != "ProbationEnded"@,
        "CompileResult"@ != "AuditLog"@,
        "CompileResult"@ != "ResourceViolation"@,
        "CompileResult"@ != "RunlevelRequest"@,
        "CompileResult"@ != "RunlevelRequestResult"@,
        "CompileResult"@ != "CapabilityEscalation"@,
        "CompileResult"@ != "ConstitutionAmendmentProposal"@,
        "CompileResult"@ != "ConstitutionAmendmentResult"@,
        "CompileResult"@ != "ProtocolExtensionProposal"@,
        "CompileResult"@ != "ProtocolExtensionResult"@,
        "UpdateRejected"@ != "UpdateAccepted"@,
        "UpdateRejected"@ != "GetState"@,
        "UpdateRejected"@ != "GetStateResponse"@,
        "UpdateRejected"@ != "SetState"@,
        "UpdateRejected"@ != "SetStateAck"@,
        "UpdateRejected"@ != "TestRequest"@,
        "UpdateRejected"@ != "TestResult"@,
        "UpdateRejected"@ != "ProbationStarted"@,
        "UpdateRejected"@ != "ProbationEnded"@,
        "UpdateRejected"@ != "AuditLog"@,
        "UpdateRejected"@ != "ResourceViolation"@,
        "UpdateRejected"@ != "RunlevelRequest"@,
        "UpdateRejected"@ != "RunlevelRequestResult"@,
        "UpdateRejected"@ != "CapabilityEscalation"@,
        "UpdateRejected"@ != "ConstitutionAmendmentProposal"@,
        "UpdateRejected"@ != "ConstitutionAmendmentResult"@,
        "UpdateRejected"@ != "ProtocolExtensionProposal"@,
        "UpdateRejected"@ != "ProtocolExtensionResult"@,
        "UpdateAccepted"@ != "GetState"@,
        "UpdateAccepted"@ != "GetStateResponse"@,
        "UpdateAccepted"@ != "SetState"@,
        "UpdateAccepted"@ != "SetStateAck"@,
        "UpdateAccepted"@ != "TestRequest"@,
        "UpdateAccepted"@ != "TestResult"@,
        "UpdateAccepted"@ != "ProbationStarted"@,
        "UpdateAccepted"@ != "ProbationEnded"@,
        "UpdateAccepted"@ != "AuditLog"@,
        "UpdateAccepted"@ != "ResourceViolation"@,
        "UpdateAccepted"@ != "RunlevelRequest"@,
        "UpdateAccepted"@ != "RunlevelRequestResult"@,
        "UpdateAccepted"@ != "CapabilityEscalation"@,
        "UpdateAccepted"@ != "ConstitutionAmendmentProposal"@,
        "UpdateAccepted"@ != "ConstitutionAmendmentResult"@,
        "UpdateAccepted"@ != "ProtocolExtensionProposal"@,
        "UpdateAccepted"@ != "ProtocolExtensionResult"@,
        "GetState"@ != "GetStateResponse"@,
        "GetState"@ != "SetState"@,
        "GetState"@ != "SetStateAck"@,
        "GetState"@ != "TestRequest"@,
        "GetState"@ != "TestResult"@,
        "GetState"@ != "ProbationStarted"@,
        "GetState"@ != "ProbationEnded"@,
        "GetState"@ != "AuditLog"@,
        "GetState"@ != "ResourceViolation"@,
        "GetState"@ != "RunlevelRequest"@,
        "GetState"@ != "RunlevelRequestResult"@,
        "GetState"@ != "CapabilityEscalation"@,
        "GetState"@ != "ConstitutionAmendmentProposal"@,
        "GetState"@ != "ConstitutionAmendmentResult"@,
        "GetState"@ != "ProtocolExtensionProposal"@,
        "GetState"@ != "ProtocolExtensionResult"@,
        "GetStateResponse"@ != "SetState"@,
        "GetStateResponse"@ != "SetStateAck"@,
        "GetStateResponse"@ != "TestRequest"@,
        "GetStateResponse"@ != "TestResult"@,
        "GetStateResponse"@ != "ProbationStarted"@,
        "GetStateResponse"@ != "ProbationEnded"@,
        "GetStateResponse"@ != "AuditLog"@,
        "GetStateResponse"@ != "ResourceViolation"@,
        "GetStateResponse"@ != "RunlevelRequest"@,
        "GetStateResponse"@ != "RunlevelRequestResult"@,
        "GetStateResponse"@ != "CapabilityEscalation"@,
        "GetStateResponse"@ != "ConstitutionAmendmentProposal"@,
        "GetStateResponse"@ != "ConstitutionAmendmentResult"@,
        "GetStateResponse"@ != "ProtocolExtensionProposal"@,
        "GetStateResponse"@ != "ProtocolExtensionResult"@,
        "SetState"@ != "SetStateAck"@,
        "SetState"@ != "TestRequest"@,
        "SetState"@ != "TestResult"@,
        "SetState"@ != "ProbationStarted"@,
        "SetState"@ != "ProbationEnded"@,
        "SetState"@ != "AuditLog"@,
        "SetState"@ != "ResourceViolation"@,
        "SetState"@ != "RunlevelRequest"@,
        "SetState"@ != "RunlevelRequestResult"@,
        "SetState"@ != "CapabilityEscalation"@,
        "SetState"@ != "ConstitutionAmendmentProposal"@,
        "SetState"@ != "ConstitutionAmendmentResult"@,
        "SetState"@ != "ProtocolExtensionProposal"@,
        "SetState"@ != "ProtocolExtensionResult"@,
        "SetStateAck"@ != "TestRequest"@,
        "SetStateAck"@ != "TestResult"@,
        "SetStateAck"@ != "ProbationStarted"@,
        "SetStateAck"@ != "ProbationEnded"@,
        "SetStateAck"@ != "AuditLog"@,
        "SetStateAck"@ != "ResourceViolation"@,
        "SetStateAck"@ != "RunlevelRequest"@,
        "SetStateAck"@ != "RunlevelRequestResult"@,
        "SetStateAck"@ != "CapabilityEscalation"@,
        "SetStateAck"@ != "ConstitutionAmendmentProposal"@,
        "SetStateAck"@ != "ConstitutionAmendmentResult"@,
        "SetStateAck"@ != "ProtocolExtensionProposal"@,
        "SetStateAck"@ != "ProtocolExtensionResult"@,
        "TestRequest"@ != "TestResult"@,
        "TestRequest"@ != "ProbationStarted"@,
        "TestRequest"@ != "ProbationEnded"@,
        "TestRequest"@ != "AuditLog"@,
        "TestRequest"@ != "ResourceViolation"@,
        "TestRequest"@ != "RunlevelRequest"@,
        "TestRequest"@ != "RunlevelRequestResult"@,
        "TestRequest"@ != "CapabilityEscalation"@,
        "TestRequest"@ != "ConstitutionAmendmentProposal"@,
        "TestRequest"@ != "ConstitutionAmendmentResult"@,
        "TestRequest"@ != "ProtocolExtensionProposal"@,
        "TestRequest"@ != "ProtocolExtensionResult"@,
        "TestResult"@ != "ProbationStarted"@,
        "TestResult"@ != "ProbationEnded"@,
        "TestResult"@ != "AuditLog"@,
        "TestResult"@ != "ResourceViolation"@,
        "TestResult"@ != "RunlevelRequest"@,
        "TestResult"@ != "RunlevelRequestResult"@,
        "TestResult"@ != "CapabilityEscalation"@,
        "TestResult"@ != "ConstitutionAmendmentProposal"@,
        "TestResult"@ != "ConstitutionAmendmentResult"@,
        "TestResult"@ != "ProtocolExtensionProposal"@,
        "TestResult"@ != "ProtocolExtensionResult"@,
        "ProbationStarted"@ != "ProbationEnded"@,
        "ProbationStarted"@ != "AuditLog"@,
        "ProbationStarted"@ != "ResourceViolation"@,
        "ProbationStarted"@ != "RunlevelRequest"@,
        "ProbationStarted"@ != "RunlevelRequestResult"@,
        "ProbationStarted"@ != "CapabilityEscalation"@,
        "ProbationStarted"@ != "ConstitutionAmendmentProposal"@,
        "ProbationStarted"@ != "ConstitutionAmendmentResult"@,
        "ProbationStarted"@ != "ProtocolExtensionProposal"@,
        "ProbationStarted"@ != "ProtocolExtensionResult"@,
        "ProbationEnded"@ != "AuditLog"@,
        "ProbationEnded"@ != "ResourceViolation"@,
        "ProbationEnded"@ != "RunlevelRequest"@,
        "ProbationEnded"@ != "RunlevelRequestResult"@,
        "ProbationEnded"@ != "CapabilityEscalation"@,
        "ProbationEnded"@ != "ConstitutionAmendmentProposal"@,
        "ProbationEnded"@ != "ConstitutionAmendmentResult"@,
        "ProbationEnded"@ != "ProtocolExtensionProposal"@,
        "ProbationEnded"@ != "ProtocolExtensionResult"@,
        "AuditLog"@ != "ResourceViolation"@,
        "AuditLog"@ != "RunlevelRequest"@,
        "AuditLog"@ != "RunlevelRequestResult"@,
        "AuditLog"@ != "CapabilityEscalation"@,
        "AuditLog"@ != "ConstitutionAmendmentProposal"@,
        "AuditLog"@ != "ConstitutionAmendmentResult"@,
        "AuditLog"@ != "ProtocolExtensionProposal"@,
        "AuditLog"@ != "ProtocolExtensionResult"@,
        "ResourceViolation"@ != "RunlevelRequest"@,
        "ResourceViolation"@ != "RunlevelRequestResult"@,
        "ResourceViolation"@ != "CapabilityEscalation"@,
        "ResourceViolation"@ != "ConstitutionAmendmentProposal"@,
        "ResourceViolation"@ != "ConstitutionAmendmentResult"@,
        "ResourceViolation"@ != "ProtocolExtensionProposal"@,
        "ResourceViolation"@ != "ProtocolExtensionResult"@,
        "RunlevelRequest"@ != "RunlevelRequestResult"@,
        "RunlevelRequest"@ != "CapabilityEscalation"@,
        "RunlevelRequest"@ != "ConstitutionAmendmentProposal"@,
        "RunlevelRequest"@ != "ConstitutionAmendmentResult"@,
        "RunlevelRequest"@ != "ProtocolExtensionProposal"@,
        "RunlevelRequest"@ != "ProtocolExtensionResult"@,
        "RunlevelRequestResult"@ != "CapabilityEscalation"@,
        "RunlevelRequestResult"@ != "ConstitutionAmendmentProposal"@,
        "RunlevelRequestResult"@ != "ConstitutionAmendmentResult"@,
        "RunlevelRequestResult"@ != "ProtocolExtensionProposal"@,
        "RunlevelRequestResult"@ != "ProtocolExtensionResult"@,
        "CapabilityEscalation"@ != "ConstitutionAmendmentProposal"@,
        "CapabilityEscalation"@ != "ConstitutionAmendmentResult"@,
        "CapabilityEscalation"@ != "ProtocolExtensionProposal"@,
        "CapabilityEscalation"@ != "ProtocolExtensionResult"@,
        "ConstitutionAmendmentProposal"@ != "ConstitutionAmendmentResult"@,
        "ConstitutionAmendmentProposal"@ != "ProtocolExtensionProposal"@,
        "ConstitutionAmendmentProposal"@ != "ProtocolExtensionResult"@,
        "ConstitutionAmendmentResult"@ != "ProtocolExtensionProposal"@,
        "ConstitutionAmendmentResult"@ != "ProtocolExtensionResult"@,
        "ProtocolExtensionProposal"@ != "ProtocolExtensionResult"@,
{
    reveal_strlit("Hello");
    reveal_strlit("Welcome");
    reveal_strlit("LeaseRenew");
    reveal_strlit("LeaseAck");
    reveal_strlit("RunlevelChange");
    reveal_strlit("Shutdown");
    reveal_strlit("SubmitUpdate");
    reveal_strlit("CompileRequest");
    reveal_strlit("CompileResult");
    reveal_strlit("UpdateRejected");
    reveal_strlit("UpdateAccepted");
    reveal_strlit("GetState");
    reveal_strlit("GetStateResponse");
    reveal_strlit("SetState");
    reveal_strlit("SetStateAck");
    reveal_strlit("TestRequest");
    reveal_strlit("TestResult");
    reveal_strlit("ProbationStarted");
    reveal_strlit("ProbationEnded");
    reveal_strlit("AuditLog");
    reveal_strlit("ResourceViolation");
    reveal_strlit("RunlevelRequest");
    reveal_strlit("RunlevelRequestResult");
    reveal_strlit("CapabilityEscalation");
    reveal_strlit("ConstitutionAmendmentProposal");
    reveal_strlit("ConstitutionAmendmentResult");
    reveal_strlit("ProtocolExtensionProposal");
    reveal_strlit("ProtocolExtensionResult");
    assert("Hello"@.len() == 5);
    assert("Welcome"@.len() == 7);
    assert("LeaseRenew"@.len() == 10);
    assert("LeaseAck"@.len() == 8);
    assert("RunlevelChange"@.len() == 14);
    assert("Shutdown"@.len() == 8);
    assert("SubmitUpdate"@.len() == 12);
    assert("CompileRequest"@.len() == 14);
    assert("CompileResult"@.len() == 13);
    assert("UpdateRejected"@.len() == 14);
    assert("UpdateAccepted"@.len() == 14);
    assert("GetState"@.len() == 8);
    assert("GetStateResponse"@.len() == 16);
    assert("SetState"@.len() == 8);
    assert("SetStateAck"@.len() == 11);
    assert("TestRequest"@.len() == 11);
    assert("TestResult"@.len() == 10);
    assert("ProbationStarted"@.len() == 16);
    assert("ProbationEnded"@.len() == 14);
    assert("AuditLog"@.len() == 8);
    assert("ResourceViolation"@.len() == 17);
    assert("RunlevelRequest"@.len() == 15);
    assert("RunlevelRequestResult"@.len() == 21);
    assert("CapabilityEscalation"@.len() == 20);
    assert("ConstitutionAmendmentProposal"@.len() == 29);
    assert("ConstitutionAmendmentResult"@.len() == 27);
    assert("ProtocolExtensionProposal"@.len() == 25);
    assert("ProtocolExtensionResult"@.len() == 23);
    assert("LeaseRenew"@[0] == 'L');
    assert("LeaseAck"@[0] == 'L');
    assert("RunlevelChange"@[0] == 'R');
    assert("Shutdown"@[0] == 'S');
    assert("Shutdown"@[1] == 'h');
    assert("CompileRequest"@[0] == 'C');
    assert("UpdateRejected"@[0] == 'U');
    assert("UpdateRejected"@[6] == 'R');
    assert("UpdateAccepted"@[0] == 'U');
    assert("UpdateAccepted"@[6] == 'A');
    assert("GetState"@[0] == 'G');
    assert("GetStateResponse"@[0] == 'G');
    assert("SetState"@[0] == 'S');
    assert("SetState"@[1] == 'e');
    assert("SetStateAck"@[0] == 'S');
    assert("TestRequest"@[0] == 'T');
    assert("TestResult"@[0] == 'T');
    assert("ProbationStarted"@[0] == 'P');
    assert("ProbationEnded"@[0] == 'P');
    assert("AuditLog"@[0] == 'A');
}

/// A new installation knows each type of message with what it is about and the
/// way that it goes, in the first version of the protocol.
#[verifier::rlimit(60)]
pub proof fn law_new_installations_know_the_core_types()
    ensures
        core_registry().version == "1.0"@,
        core_registry().messages.contains_key("Hello"@) && core_registry().messages["Hello"@].category
            == "handshake"@ && core_registry().messages["Hello"@].direction == "peer->boot"@,
        core_registry().messages.contains_key("Welcome"@) && core_registry().messages["Welcome"@].category
            == "handshake"@ && core_registry().messages["Welcome"@].direction == "boot->peer"@,
        core_registry().messages.contains_key("LeaseRenew"@) && core_registry().messages["LeaseRenew"@].category
            == "heartbeat"@ && core_registry().messages["LeaseRenew"@].direction == "peer->boot"@,
        core_registry().messages.contains_key("LeaseAck"@) && core_registry().messages["LeaseAck"@].category
            == "heartbeat"@ && core_registry().messages["LeaseAck"@].direction == "boot->peer"@,
        core_registry().messages.contains_key("RunlevelChange"@) && core_registry().messages["RunlevelChange"@].category
            == "runlevel"@ && core_registry().messages["RunlevelChange"@].direction == "boot->all"@,
        core_registry().messages.contains_key("Shutdown"@) && core_registry().messages["Shutdown"@].category
            == "lifecycle"@ && core_registry().messages["Shutdown"@].direction == "boot->peer"@,
        core_registry().messages.contains_key("SubmitUpdate"@) && core_registry().messages["SubmitUpdate"@].category
            == "update"@ && core_registry().messages["SubmitUpdate"@].direction == "peripheral->boot"@,
        core_registry().messages.contains_key("CompileRequest"@) && core_registry().messages["CompileRequest"@].category
            == "update"@ && core_registry().messages["CompileRequest"@].direction == "boot->compiler"@,
        core_registry().messages.contains_key("CompileResult"@) && core_registry().messages["CompileResult"@].category
            == "update"@ && core_registry().messages["CompileResult"@].direction == "compiler->boot"@,
        core_registry().messages.contains_key("UpdateRejected"@) && core_registry().messages["UpdateRejected"@].category
            == "update"@ && core_registry().messages["UpdateRejected"@].direction == "boot->peripheral"@,
        core_registry().messages.contains_key("UpdateAccepted"@) && core_registry().messages["UpdateAccepted"@].category
            == "update"@ && core_registry().messages["UpdateAccepted"@].direction == "boot->peripheral"@,
        core_registry().messages.contains_key("GetState"@) && core_registry().messages["GetState"@].category
            == "state"@ && core_registry().messages["GetState"@].direction == "peer->boot"@,
        core_registry().messages.contains_key("GetStateResponse"@) && core_registry().messages["GetStateResponse"@].category
            == "state"@ && core_registry().messages["GetStateResponse"@].direction == "boot->peer"@,
        core_registry().messages.contains_key("SetState"@) && core_registry().messages["SetState"@].category
            == "state"@ && core_registry().messages["SetState"@].direction == "peer->boot"@,
        core_registry().messages.contains_key("SetStateAck"@) && core_registry().messages["SetStateAck"@].category
            == "state"@ && core_registry().messages["SetStateAck"@].direction == "boot->peer"@,
        core_registry().messages.contains_key("TestRequest"@) && core_registry().messages["TestRequest"@].category
            == "judge"@ && core_registry().messages["TestRequest"@].direction == "boot->judge"@,
        core_registry().messages.contains_key("TestResult"@) && core_registry().messages["TestResult"@].category
            == "judge"@ && core_registry().messages["TestResult"@].direction == "judge->boot"@,
        core_registry().messages.contains_key("ProbationStarted"@) && core_registry().messages["ProbationStarted"@].category
            == "judge"@ && core_registry().messages["ProbationStarted"@].direction == "boot->peripheral"@,
        core_registry().messages.contains_key("ProbationEnded"@) && core_registry().messages["ProbationEnded"@].category
            == "judge"@ && core_registry().messages["ProbationEnded"@].direction == "boot->peripheral"@,
        core_registry().messages.contains_key("AuditLog"@) && core_registry().messages["AuditLog"@].category
            == "audit"@ && core_registry().messages["AuditLog"@].direction == "boot->audit"@,
        core_registry().messages.contains_key("ResourceViolation"@) && core_registry().messages["ResourceViolation"@].category
            == "security"@ && core_registry().messages["ResourceViolation"@].direction == "boot->audit"@,
        core_registry().messages.contains_key("RunlevelRequest"@) && core_registry().messages["RunlevelRequest"@].category
            == "runlevel"@ && core_registry().messages["RunlevelRequest"@].direction == "peer->boot"@,
        core_registry().messages.contains_key("RunlevelRequestResult"@) && core_registry().messages["RunlevelRequestResult"@].category
            == "runlevel"@ && core_registry().messages["RunlevelRequestResult"@].direction == "boot->peer"@,
        core_registry().messages.contains_key("CapabilityEscalation"@) && core_registry().messages["CapabilityEscalation"@].category
            == "security"@ && core_registry().messages["CapabilityEscalation"@].direction == "boot->audit"@,
        core_registry().messages.contains_key("ConstitutionAmendmentProposal"@) && core_registry().messages["ConstitutionAmendmentProposal"@].category
            == "constitution"@ && core_registry().messages["ConstitutionAmendmentProposal"@].direction == "peer->boot"@,
        core_registry().messages.contains_key("ConstitutionAmendmentResult"@) && core_registry().messages["ConstitutionAmendmentResult"@].category
            == "constitution"@ && core_registry().messages["ConstitutionAmendmentResult"@].direction == "boot->peer"@,
        core_registry().messages.contains_key("ProtocolExtensionProposal"@) && core_registry().messages["ProtocolExtensionProposal"@].category
            == "protocol"@ && core_registry().messages["ProtocolExtensionProposal"@].direction == "peer->boot"@,
        core_registry().messages.contains_key("ProtocolExtensionResult"@) && core_registry().messages["ProtocolExtensionResult"@].category
            == "protocol"@ && core_registry().messages["ProtocolExtensionResult"@].direction == "boot->peer"@,
{
    lemma_type_names();
}

/// The types of a new installation are core types, with no schema yet, and have
/// been there from the start.
pub proof fn law_core_types_are_added_one_by_one(
    r: Registry,
    name: Seq<char>,
    category: Seq<char>,
    direction: Seq<char>,
    other: Seq<char>,
)
    requires
        other != name,
    ensures
        r.with_core(name, category, direction).messages.contains_key(name),
        r.with_core(name, category, direction).messages[name].added_in == Some("1.0"@),
        r.with_core(name, category, direction).messages[name].category == category,
        r.with_core(name, category, direction).messages[name].direction == direction,
        r.with_core(name, category, direction).messages.contains_key(other)
            == r.messages.contains_key(other),
        r.messages.contains_key(other) ==> r.with_core(name, category, direction).messages[other]
            == r.messages[other],
{
}

} // verus!
