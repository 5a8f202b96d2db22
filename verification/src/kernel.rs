//! The microkernel's decisions: what each message and each clock tick changes,
//! and what is to be done about it.

use crate::capability::CapabilityManager;
use crate::constitution::{ConstitutionManager, ConstitutionState};
use crate::json::{empty_object, lemma_tree, list_trees, number_of, Json, JsonTree};
use crate::lease::{
    fresh_lease, lease_reports, named, LeaseConfig, LeaseEntry, LeaseManager, LeaseState, LeaseStatus,
};
use crate::messages::{
    audit_log_tree, lease_ack_tree, resource_violation_alert_tree, runlevel_change_tree,
    runlevel_request_result_tree, shutdown_tree, welcome_tree, AuditLog, Envelope, HealthReport,
    Hello, LeaseAck, ResourceViolationAlert, RunlevelChange, RunlevelRequest, RunlevelRequestResult,
    Shutdown, Welcome,
};
use crate::msg_types;
use crate::paths::{join, joined};
use crate::protocol::{ProtocolManager, Registry};
use crate::resource::{
    halved, health_violations, lemma_forgotten, violation_views, LimitReading, MonitorState, Reading,
    ResourceLimits, ResourceMonitor, ResourceViolation, Violation, ViolationSeverity,
};
use crate::runlevel::{
    transition_error, valid_transition, Runlevel, RunlevelManager, RunlevelState, TransitionReason,
};
use crate::scan::{contains_text, law_parts_are_found};
use crate::state::{StateStore, StoreState};
use crate::text::{dec, decimal, str_eq};
use crate::version::{opt_text, VersionManager, VersionState};
use vstd::prelude::*;
use vstd::string::*;

verus! {

/// Seconds that a version stays on probation.
pub const PROBATION_DURATION_SECS: u64 = 3600;

/// Milliseconds after which an old peripheral that does not disconnect is given up.
pub const HOT_SWAP_DISCONNECT_TIMEOUT_MS: u64 = 15_000;

/// Milliseconds after which a new peripheral that does not connect is given up.
pub const HOT_SWAP_HANDSHAKE_TIMEOUT_MS: u64 = 60_000;

/// How the boot process is set up. The interval is in milliseconds.
#[derive(Debug, Clone)]
pub struct BootConfig {
    pub base_dir: String,
    pub sock_path: String,
    pub lease_config: LeaseConfig,
    pub lease_check_interval: u64,
    pub resource_limits: ResourceLimits,
}

impl BootConfig {
    /// The default set-up for a home directory.
    pub fn for_home(home: &str) -> (c: BootConfig)
        ensures
            c.base_dir@ == joined(home@, ".reloopy"@),
            c.sock_path@ == joined(c.base_dir@, "reloopy.sock"@),
            c.lease_config.lease_duration == 10_000,
            c.lease_config.grace_period == 5_000,
            c.lease_config.max_renewals_missed == 3,
            c.lease_config.probation_lease_duration == 5_000,
            c.lease_check_interval == 5_000,
            c.resource_limits == (ResourceLimits {
                max_memory_mb: 512,
                max_open_files: 256,
                max_disk_write_mb: 100,
                max_process_count: 4,
            }),
    {
        let base_dir = join(home, ".reloopy");
        let sock_path = join(base_dir.as_str(), "reloopy.sock");
        BootConfig {
            base_dir,
            sock_path,
            lease_config: LeaseConfig::default(),
            lease_check_interval: 5_000,
            resource_limits: ResourceLimits::default(),
        }
    }
}

/// A version on probation.
pub struct ProbationState {
    pub version: String,
    pub binary_path: String,
    /// When it started, in milliseconds of the monotonic clock.
    pub started_at: u64,
    pub duration: u64,
    pub envelope_id: String,
}

/// The content of a `ProbationState`.
pub ghost struct Probation {
    pub version: Seq<char>,
    pub binary_path: Seq<char>,
    pub started_at: u64,
    pub duration: u64,
    pub envelope_id: Seq<char>,
}

impl View for ProbationState {
    type V = Probation;

    open spec fn view(&self) -> Probation {
        Probation {
            version: self.version@,
            binary_path: self.binary_path@,
            started_at: self.started_at,
            duration: self.duration,
            envelope_id: self.envelope_id@,
        }
    }
}

/// How far the replacement of the running peripheral has come. Times are in
/// milliseconds of the monotonic clock.
pub enum HotSwapState<T> {
    Idle,
    WaitingForOldDisconnect {
        new_version: T,
        new_binary: T,
        old_version: T,
        initiated_at: u64,
    },
    WaitingForNewHandshake { new_version: T, old_version: T, initiated_at: u64 },
}

impl View for HotSwapState<String> {
    type V = HotSwapState<Seq<char>>;

    open spec fn view(&self) -> HotSwapState<Seq<char>> {
        match self {
            HotSwapState::Idle => HotSwapState::Idle,
            HotSwapState::WaitingForOldDisconnect {
                new_version,
                new_binary,
                old_version,
                initiated_at,
            } => HotSwapState::WaitingForOldDisconnect {
                new_version: new_version@,
                new_binary: new_binary@,
                old_version: old_version@,
                initiated_at: *initiated_at,
            },
            HotSwapState::WaitingForNewHandshake { new_version, old_version, initiated_at } =>
                HotSwapState::WaitingForNewHandshake {
                    new_version: new_version@,
                    old_version: old_version@,
                    initiated_at: *initiated_at,
                },
        }
    }
}

/// Something to be done outside the kernel.
pub enum Action {
    /// Send a message to the peer it is addressed to.
    Send(Envelope),
    /// Send a message to all peers.
    Broadcast(Envelope),
    /// Tell the audit service of an event.
    Audit { event: String, version: Option<String>, details: Json },
    /// Drop a peer from the routing table.
    RemovePeer(String),
    /// Switch to a version that has been found good.
    Finalize { version: String, envelope_id: String },
    /// Start a peripheral, then report how that went.
    SpawnPeripheral { binary: String, version: String, old_version: String },
    /// Go back to the previous version.
    RollBack,
    /// Go back to the previous version and start its binary, where it is there.
    RollBackAndSpawn { binary: String, version: String },
}

/// The content of an `Envelope`.
pub ghost struct Letter {
    pub from: Seq<char>,
    pub to: Seq<char>,
    pub msg_type: Seq<char>,
    pub id: Seq<char>,
    pub payload: JsonTree,
}

impl View for Envelope {
    type V = Letter;

    open spec fn view(&self) -> Letter {
        Letter {
            from: self.from@,
            to: self.to@,
            msg_type: self.msg_type@,
            id: self.id@,
            payload: self.payload.tree(),
        }
    }
}

/// The content of an `Action`.
pub ghost enum Act {
    Send(Letter),
    Broadcast(Letter),
    Audit { event: Seq<char>, version: Option<Seq<char>>, details: JsonTree },
    RemovePeer(Seq<char>),
    Finalize { version: Seq<char>, envelope_id: Seq<char> },
    SpawnPeripheral { binary: Seq<char>, version: Seq<char>, old_version: Seq<char> },
    RollBack,
    RollBackAndSpawn { binary: Seq<char>, version: Seq<char> },
}

impl View for Action {
    type V = Act;

    open spec fn view(&self) -> Act {
        match self {
            Action::Send(e) => Act::Send(e@),
            Action::Broadcast(e) => Act::Broadcast(e@),
            Action::Audit { event, version, details } => Act::Audit {
                event: event@,
                version: opt_text(*version),
                details: details.tree(),
            },
            Action::RemovePeer(p) => Act::RemovePeer(p@),
            Action::Finalize { version, envelope_id } => Act::Finalize {
                version: version@,
                envelope_id: envelope_id@,
            },
            Action::SpawnPeripheral { binary, version, old_version } => Act::SpawnPeripheral {
                binary: binary@,
                version: version@,
                old_version: old_version@,
            },
            Action::RollBack => Act::RollBack,
            Action::RollBackAndSpawn { binary, version } => Act::RollBackAndSpawn {
                binary: binary@,
                version: version@,
            },
        }
    }
}

impl Action {
    /// What is sent is a document.
    pub open spec fn wf(self) -> bool {
        match self {
            Action::Send(e) => e.payload.wf(),
            Action::Broadcast(e) => e.payload.wf(),
            Action::Audit { event, version, details } => details.wf(),
            _ => true,
        }
    }
}

/// The contents of a list of actions.
pub open spec fn acts(v: Seq<Action>) -> Seq<Act> {
    Seq::new(v.len(), |i: int| v[i]@)
}

/// Every action of a list is well-formed.
pub open spec fn all_wf(v: Seq<Action>) -> bool {
    forall|i: int| 0 <= i < v.len() ==> (#[trigger] v[i]).wf()
}

/// Appends an action.
pub fn push_action(v: &mut Vec<Action>, a: Action)
    requires
        all_wf(old(v)@),
        a.wf(),
    ensures
        all_wf(final(v)@),
        acts(final(v)@) == acts(old(v)@).push(a@),
{
    v.push(a);
    assert(acts(v@) =~= acts(old(v)@).push(a@));
}

/// Appends a list of actions.
pub fn append_actions(v: &mut Vec<Action>, more: Vec<Action>)
    requires
        all_wf(old(v)@),
        all_wf(more@),
    ensures
        all_wf(final(v)@),
        acts(final(v)@) == acts(old(v)@) + acts(more@),
{
    let mut more = more;
    let ghost m = more@;
    v.append(&mut more);
    assert(acts(v@) =~= acts(old(v)@) + acts(m));
}

/// No actions.
pub fn no_actions() -> (v: Vec<Action>)
    ensures
        acts(v@) == Seq::<Act>::empty(),
        all_wf(v@),
{
    let v: Vec<Action> = Vec::new();
    assert(acts(v@) =~= Seq::empty());
    v
}

/// One action.
pub fn one_action(a: Action) -> (v: Vec<Action>)
    requires
        a.wf(),
    ensures
        acts(v@) == seq![a@],
        all_wf(v@),
{
    let mut v: Vec<Action> = Vec::new();
    v.push(a);
    assert(acts(v@) =~= seq![a@]);
    v
}

/// A message from the boot process.
pub open spec fn boot_letter(
    to: Seq<char>,
    msg_type: Seq<char>,
    id: Seq<char>,
    payload: JsonTree,
) -> Letter {
    Letter { from: "boot"@, to, msg_type, id, payload }
}

/// A message from the boot process.
pub fn boot_envelope(to: &str, msg_type: &str, id: &str, payload: Json) -> (e: Envelope)
    ensures
        e@ == boot_letter(to@, msg_type@, id@, payload.tree()),
        e.payload == payload,
{
    Envelope {
        from: "boot".to_owned(),
        to: to.to_owned(),
        msg_type: msg_type.to_owned(),
        id: id.to_owned(),
        payload,
    }
}

/// The message that tells the audit service of an event at a time in seconds since 1970.
pub fn audit_envelope(
    unix_secs: u64,
    event: String,
    version: Option<String>,
    details: Json,
) -> (e: Envelope)
    requires
        details.wf(),
    ensures
        e@ == boot_letter(
            "audit"@,
            "AuditLog"@,
            Seq::empty(),
            audit_log_tree(
                dec(unix_secs as nat),
                event@,
                opt_text(version),
                details.tree(),
            ),
        ),
        e.payload.wf(),
{
    let audit = AuditLog { timestamp: decimal(unix_secs), event, version, details };
    let id = String::new();
    boot_envelope("audit", msg_types::AUDIT_LOG, id.as_str(), audit.to_json())
}

/// The capabilities that a role has to declare.
pub open spec fn required(role: Seq<char>) -> Option<Seq<Seq<char>>> {
    if role == "compiler"@ {
        Some(seq!["compile"@])
    } else if role == "judge"@ {
        Some(seq!["test"@, "score"@])
    } else if role == "audit"@ {
        Some(seq!["log_write"@, "log_query"@])
    } else if role == "peripheral"@ {
        Some(seq!["agent"@])
    } else {
        None
    }
}

/// Whether a list declares a capability.
pub open spec fn declares(declared: Seq<JsonTree>, capability: Seq<char>) -> bool {
    exists|i: int|
        0 <= i < declared.len() && #[trigger] declared[i] == JsonTree::Text(capability)
}

/// The first of the required capabilities that is not declared.
pub open spec fn first_missing(
    caps: Seq<Seq<char>>,
    declared: Seq<JsonTree>,
) -> Option<Seq<char>>
    decreases caps.len(),
{
    if caps.len() == 0 {
        None
    } else if !declares(declared, caps[0]) {
        Some(caps[0])
    } else {
        first_missing(caps.drop_first(), declared)
    }
}

/// Why a handshake is refused, if it is.
pub open spec fn handshake_error(role: Seq<char>, declared: JsonTree) -> Option<Seq<char>> {
    match required(role) {
        None => Some("Unknown role: "@ + role),
        Some(caps) => match declared.as_list() {
            None => Some("capabilities must be a JSON array"@),
            Some(list) => match first_missing(caps, list) {
                Some(c) => Some(
                    "Role '"@ + role + "' requires capability '"@ + c
                        + "' but it was not declared"@,
                ),
                None => None,
            },
        },
    }
}

/// The contents of string slices.
pub open spec fn str_texts(v: Seq<&'static str>) -> Seq<Seq<char>> {
    Seq::new(v.len(), |i: int| v[i]@)
}

/// Knows what each role has to declare.
pub struct CapabilityRegistry;

impl CapabilityRegistry {
    /// The capabilities that a role has to declare.
    pub fn required_capabilities(role: &str) -> (r: Option<Vec<&'static str>>)
        ensures
            r is Some <==> required(role@) is Some,
            r is Some ==> str_texts(r->Some_0@) == required(role@)->Some_0,
    {
        let mut v: Vec<&'static str> = Vec::new();
        if str_eq(role, "compiler") {
            v.push("compile");
        } else if str_eq(role, "judge") {
            v.push("test");
            v.push("score");
        } else if str_eq(role, "audit") {
            v.push("log_write");
            v.push("log_query");
        } else if str_eq(role, "peripheral") {
            v.push("agent");
        } else {
            return None;
        }
        assert(str_texts(v@) =~= required(role@)->Some_0);
        Some(v)
    }

    /// Checks the capabilities that a peer declares.
    pub fn validate(role: &str, declared: &Json) -> (r: Result<(), String>)
        requires
            declared.wf(),
        ensures
            (match handshake_error(role@, declared.tree()) {
                Some(e) => r is Err && r->Err_0@ == e,
                None => r is Ok,
            }),
    {
        let caps = match CapabilityRegistry::required_capabilities(role) {
            Some(c) => c,
            None => {
                let mut m = "Unknown role: ".to_owned();
                m.append(role);
                return Err(m);
            },
        };
        proof {
            lemma_tree(*declared);
        }
        let list = match declared {
            Json::List(l) => l,
            _ => {
                return Err("capabilities must be a JSON array".to_owned());
            },
        };
        let ghost c = str_texts(caps@);
        let ghost l = list_trees(list@);
        let mut i: usize = 0;
        assert(c.skip(0) =~= c);
        while i < caps.len()
            invariant
                i <= caps@.len(),
                c == str_texts(caps@),
                l == list_trees(list@),
                required(role@) == Some(c),
                declared.tree() == JsonTree::List(l),
                first_missing(c.skip(i as int), l) == first_missing(c, l),
            decreases caps@.len() - i,
        {
            assert(c.skip(i as int)[0] == caps@[i as int]@);
            if !list_declares(list, caps[i]) {
                let mut m = "Role '".to_owned();
                m.append(role);
                m.append("' requires capability '");
                m.append(caps[i]);
                m.append("' but it was not declared");
                return Err(m);
            }
            assert(c.skip(i as int).drop_first() =~= c.skip(i + 1));
            i += 1;
        }
        Ok(())
    }
}

fn list_declares(list: &Vec<Json>, capability: &str) -> (b: bool)
    ensures
        b == declares(list_trees(list@), capability@),
{
    let ghost l = list_trees(list@);
    let mut i: usize = 0;
    while i < list.len()
        invariant
            i <= list@.len(),
            l == list_trees(list@),
            forall|k: int| 0 <= k < i ==> #[trigger] l[k] != JsonTree::Text(capability@),
        decreases list@.len() - i,
    {
        assert(l[i as int] == list@[i as int].tree());
        match list[i].as_str() {
            Some(s) => {
                if str_eq(s, capability) {
                    return true;
                }
            },
            None => {},
        }
        i += 1;
    }
    false
}

/// The kernel: everything that it knows of the running system.
pub struct Microkernel {
    pub config: BootConfig,
    pub lease_manager: LeaseManager,
    pub runlevel_manager: RunlevelManager,
    pub version_manager: VersionManager,
    pub state_store: StateStore,
    pub capability_manager: CapabilityManager,
    pub resource_monitor: ResourceMonitor,
    pub probation: Option<ProbationState>,
    pub constitution_manager: ConstitutionManager,
    pub protocol_manager: ProtocolManager,
    pub hot_swap: HotSwapState<String>,
}

/// The mathematical state of a `Microkernel`.
pub ghost struct KernelState {
    pub base_dir: Seq<char>,
    pub sock_path: Seq<char>,
    pub leases: LeaseState,
    pub runlevel: RunlevelState,
    pub versions: VersionState,
    pub store: StoreState,
    pub capabilities: Seq<char>,
    pub monitor: MonitorState,
    pub probation: Option<Probation>,
    pub constitution: ConstitutionState,
    pub registry: Registry,
    pub hot_swap: HotSwapState<Seq<char>>,
}

impl View for Microkernel {
    type V = KernelState;

    open spec fn view(&self) -> KernelState {
        KernelState {
            base_dir: self.config.base_dir@,
            sock_path: self.config.sock_path@,
            leases: self.lease_manager@,
            runlevel: self.runlevel_manager@,
            versions: self.version_manager@,
            store: self.state_store@,
            capabilities: self.capability_manager@,
            monitor: self.resource_monitor@,
            probation: match self.probation {
                Some(p) => Some(p@),
                None => None,
            },
            constitution: self.constitution_manager@,
            registry: self.protocol_manager@,
            hot_swap: self.hot_swap@,
        }
    }
}

/// The messages that announce another runlevel and, on the way to halt, shut
/// everything down.
pub open spec fn level_change_letter(from: Runlevel, to: Runlevel, reason: Seq<char>) -> Letter {
    boot_letter(
        Seq::empty(),
        "RunlevelChange"@,
        Seq::empty(),
        runlevel_change_tree(from.number(), to.number(), reason),
    )
}

/// The message that shuts every peer down.
pub open spec fn halt_letter() -> Letter {
    boot_letter(
        Seq::empty(),
        "Shutdown"@,
        Seq::empty(),
        shutdown_tree("System entering Halt runlevel"@, 5000),
    )
}

/// What a transition on the kernel's own account leads to.
pub open spec fn transition_acts(
    s: RunlevelState,
    to: Runlevel,
    reason: Seq<char>,
    automatic: bool,
) -> Seq<Act> {
    if s.level == to || !valid_transition(s.level, to) {
        Seq::empty()
    } else {
        seq![
            Act::Broadcast(level_change_letter(s.level, to, reason)),
            Act::Audit {
                event: "runlevel_change"@,
                version: None,
                details: empty_object().set(
                    "from"@,
                    JsonTree::Number(number_of(s.level.number() as u64)),
                ).set("to"@, JsonTree::Number(number_of(to.number() as u64))).set(
                    "reason"@,
                    JsonTree::Text(reason),
                ).set("automatic"@, JsonTree::Bool(automatic)),
            },
        ] + if to is Halt {
            seq![Act::Broadcast(halt_letter())]
        } else {
            Seq::empty()
        }
    }
}

/// The alerts for the hard violations among the given ones.
pub open spec fn alert_acts(v: Seq<Violation>) -> Seq<Act>
    decreases v.len(),
{
    if v.len() == 0 {
        Seq::empty()
    } else {
        let before = alert_acts(v.drop_last());
        let x = v.last();
        if x.severity is Hard {
            before.push(
                Act::Audit {
                    event: "resource_violation"@,
                    version: None,
                    details: resource_violation_alert_tree(
                        x.peer,
                        x.resource,
                        x.current,
                        x.limit,
                        "hard"@,
                    ),
                },
            )
        } else {
            before
        }
    }
}

/// The reason of a degradation for broken limits.
pub open spec fn limits_reason(peer: Seq<char>) -> Seq<char> {
    "Peer '"@ + peer + "' exceeded resource hard limits consecutively"@
}

/// The reason of a degradation for a dead peer.
pub open spec fn death_reason(peer: Seq<char>) -> Seq<char> {
    "Peer '"@ + peer + "' dead — consecutive failures triggered degradation"@
}

impl KernelState {
    /// Whether a peer is held to the limits of probation.
    pub open spec fn on_probation(self, peer: Seq<char>) -> bool {
        self.probation is Some && peer == "peripheral"@
    }

    /// The memory limit that a peer is held to.
    pub open spec fn memory_limit(self, peer: Seq<char>) -> nat {
        (if self.on_probation(peer) {
            halved(self.monitor.limits)
        } else {
            self.monitor.limits
        }).max_memory_mb as nat
    }

    /// The state and the actions after a health report.
    pub open spec fn after_health(
        self,
        peer: Seq<char>,
        memory_bytes: nat,
        cpu: Reading,
    ) -> (KernelState, Seq<Act>) {
        let v = health_violations(peer, memory_bytes, self.memory_limit(peer), cpu);
        let m = self.monitor.after_report(peer, v);
        if m.degrades(peer) {
            (
                KernelState {
                    monitor: MonitorState { strikes: m.strikes.remove(peer), ..m },
                    runlevel: self.runlevel.moved_to(Runlevel::Safe),
                    ..self
                },
                alert_acts(v) + transition_acts(
                    self.runlevel,
                    Runlevel::Safe,
                    limits_reason(peer),
                    true,
                ),
            )
        } else {
            (KernelState { monitor: m, ..self }, alert_acts(v))
        }
    }

    /// The state and the actions when the old peripheral is gone during a hot swap.
    pub open spec fn swap_advanced(self) -> (KernelState, Seq<Act>) {
        match self.hot_swap {
            HotSwapState::WaitingForOldDisconnect {
                new_version,
                new_binary,
                old_version,
                initiated_at,
            } => (
                KernelState { hot_swap: HotSwapState::Idle, ..self },
                seq![
                    Act::SpawnPeripheral {
                        binary: new_binary,
                        version: new_version,
                        old_version,
                    },
                ],
            ),
            _ => (self, Seq::empty()),
        }
    }

    /// The state without a peer.
    pub open spec fn without_peer(self, peer: Seq<char>) -> KernelState {
        KernelState {
            leases: LeaseState { leases: self.leases.leases.remove(peer), ..self.leases },
            monitor: MonitorState { strikes: self.monitor.strikes.remove(peer), ..self.monitor },
            ..self
        }
    }

    /// The state and the actions after a peer died. The death of the old
    /// peripheral during a hot swap is expected; any other one is a crash.
    pub open spec fn after_death(self, peer: Seq<char>) -> (KernelState, Seq<Act>) {
        let s = self.without_peer(peer);
        let removal = seq![Act::RemovePeer(peer)];
        if peer == "peripheral"@ && self.hot_swap is WaitingForOldDisconnect {
            (s.swap_advanced().0, removal + s.swap_advanced().1)
        } else {
            let r = s.runlevel.crashed();
            if r.crashes >= crate::runlevel::CRASH_THRESHOLD_FOR_SAFE && r.level is Normal {
                (
                    KernelState { runlevel: r.moved_to(Runlevel::Safe), ..s },
                    removal + transition_acts(r, Runlevel::Safe, death_reason(peer), true),
                )
            } else {
                (KernelState { runlevel: r, ..s }, removal)
            }
        }
    }

    /// The state and the actions after reports of deaths, one after the other.
    pub open spec fn after_reports(
        self,
        reports: Seq<(Seq<char>, LeaseStatus)>,
    ) -> (KernelState, Seq<Act>)
        decreases reports.len(),
    {
        if reports.len() == 0 {
            (self, Seq::empty())
        } else {
            let before = self.after_reports(reports.drop_last());
            let next = before.0.after_death(reports.last().0);
            (next.0, before.1 + next.1)
        }
    }

    /// The state and the actions after a handshake. A peer without the
    /// capabilities of its role is dropped; any other gets a lease and is
    /// welcomed.
    pub open spec fn after_hello(
        self,
        from: Seq<char>,
        id: Seq<char>,
        capabilities: JsonTree,
        now: u64,
    ) -> (KernelState, Seq<Act>) {
        match handshake_error(from, capabilities) {
            Some(_) => (self, seq![Act::RemovePeer(from)]),
            None => (
                KernelState {
                    leases: LeaseState {
                        leases: self.leases.leases.insert(
                            from,
                            fresh_lease(self.leases.config, now),
                        ),
                        ..self.leases
                    },
                    ..self
                },
                seq![
                    Act::Send(
                        boot_letter(
                            from,
                            "Welcome"@,
                            id,
                            welcome_tree(capabilities, self.runlevel.level.number()),
                        ),
                    ),
                ],
            ),
        }
    }

    /// The state and the actions once a peer has been sent its welcome: a new
    /// peripheral ends the hot swap that was waiting for it.
    pub open spec fn after_welcome(self, from: Seq<char>) -> (KernelState, Seq<Act>) {
        match self.hot_swap {
            HotSwapState::WaitingForNewHandshake { new_version, old_version, initiated_at }
                if from == "peripheral"@ => (
                KernelState { hot_swap: HotSwapState::Idle, ..self },
                seq![
                    Act::Audit {
                        event: "hot_swap_complete"@,
                        version: Some(new_version),
                        details: empty_object(),
                    },
                ],
            ),
            _ => (self, Seq::empty()),
        }
    }

    /// The state and the actions after a lease renewal: the limits come first,
    /// where there is a health report, then the new deadline.
    pub open spec fn after_renewal(
        self,
        from: Seq<char>,
        id: Seq<char>,
        health: Option<(HealthReport, Reading)>,
        now: u64,
        now_unix: u64,
    ) -> (KernelState, Seq<Act>) {
        if !self.leases.leases.contains_key(from) {
            (self, Seq::empty())
        } else {
            let entry = self.leases.leases[from];
            let report = match health {
                Some(h) => Some(h.0),
                None => None,
            };
            let renewed = KernelState {
                leases: LeaseState {
                    leases: self.leases.leases.insert(
                        from,
                        entry.renewed(self.leases.config, now, report),
                    ),
                    ..self.leases
                },
                ..self
            };
            let checked = match health {
                Some(h) => renewed.after_health(from, h.0.memory_bytes as nat, h.1),
                None => (renewed, Seq::<Act>::empty()),
            };
            (
                checked.0,
                checked.1.push(
                    Act::Send(
                        boot_letter(
                            from,
                            "LeaseAck"@,
                            id,
                            lease_ack_tree(
                                (now_unix + self.leases.config.duration(entry.probation)) as u64,
                            ),
                        ),
                    ),
                ),
            )
        }
    }

    /// The state and the actions after a peripheral was started during a hot
    /// swap, or could not be.
    pub open spec fn after_spawn(
        self,
        new_version: Seq<char>,
        old_version: Seq<char>,
        error: Option<Seq<char>>,
        now: u64,
    ) -> (KernelState, Seq<Act>) {
        match error {
            None => (
                KernelState {
                    hot_swap: HotSwapState::WaitingForNewHandshake {
                        new_version,
                        old_version,
                        initiated_at: now,
                    },
                    ..self
                },
                Seq::empty(),
            ),
            Some(e) => (
                self,
                seq![
                    Act::RollBack,
                    Act::Audit {
                        event: "hot_swap_failed"@,
                        version: Some(new_version),
                        details: empty_object().set("error"@, JsonTree::Text(e)),
                    },
                ],
            ),
        }
    }

    /// The state and the actions after a look at the hot swap: an old peripheral
    /// that does not go, and a new one that does not come, are given up after a
    /// while.
    pub open spec fn after_swap_check(self, now: u64) -> (KernelState, Seq<Act>) {
        match self.hot_swap {
            HotSwapState::WaitingForOldDisconnect {
                new_version,
                new_binary,
                old_version,
                initiated_at,
            } if now - initiated_at > HOT_SWAP_DISCONNECT_TIMEOUT_MS => {
                let next = (KernelState {
                    leases: LeaseState {
                        leases: self.leases.leases.remove("peripheral"@),
                        ..self.leases
                    },
                    ..self
                }).swap_advanced();
                (next.0, seq![Act::RemovePeer("peripheral"@)] + next.1)
            },
            HotSwapState::WaitingForNewHandshake { new_version, old_version, initiated_at } if now
                - initiated_at > HOT_SWAP_HANDSHAKE_TIMEOUT_MS => (
                KernelState { hot_swap: HotSwapState::Idle, ..self },
                seq![
                    Act::RollBackAndSpawn {
                        binary: binary_of(self.base_dir, old_version),
                        version: old_version,
                    },
                    Act::Audit {
                        event: "hot_swap_timeout_rollback"@,
                        version: Some(new_version),
                        details: empty_object().set(
                            "rolled_back_to"@,
                            JsonTree::Text(old_version),
                        ),
                    },
                ],
            ),
            _ => (self, Seq::empty()),
        }
    }

    /// The state and the actions after a look at the CPU usage: evolve mode is
    /// left where it is too high.
    pub open spec fn after_cpu_check(self, below: bool, avg_cpu: Seq<char>) -> (
        KernelState,
        Seq<Act>,
    ) {
        if self.runlevel.level is Evolve && !below {
            (
                KernelState { runlevel: self.runlevel.moved_to(Runlevel::Normal), ..self },
                transition_acts(
                    self.runlevel,
                    Runlevel::Normal,
                    "Resource pressure too high for evolve mode (avg CPU: "@ + avg_cpu + "%)"@,
                    true,
                ),
            )
        } else {
            (self, Seq::empty())
        }
    }
}

impl Microkernel {
    /// Every part of the kernel is in order.
    pub open spec fn wf(self) -> bool {
        &&& self.lease_manager.wf()
        &&& self.version_manager.wf()
        &&& self.state_store.wf()
        &&& self.resource_monitor.wf()
        &&& self.resource_monitor@.settled()
        &&& self.protocol_manager.wf()
    }

    /// A kernel that has just started, with the constitution and the protocol
    /// as they were stored.
    pub fn new(
        config: BootConfig,
        constitution_manager: ConstitutionManager,
        protocol_manager: ProtocolManager,
    ) -> (k: Microkernel)
        requires
            protocol_manager.wf(),
        ensures
            k.wf(),
            k@ == (KernelState {
                base_dir: config.base_dir@,
                sock_path: config.sock_path@,
                leases: LeaseState { config: config.lease_config, leases: Map::empty() },
                runlevel: RunlevelState { level: Runlevel::Normal, crashes: 0 },
                versions: VersionState {
                    base_dir: joined(config.base_dir@, "peripheral"@),
                    failures: 0,
                    locked: false,
                },
                store: StoreState {
                    dir: joined(config.base_dir@, "state"@),
                    entries: Map::empty(),
                },
                capabilities: joined(config.base_dir@, "peripheral"@),
                monitor: MonitorState { limits: config.resource_limits, strikes: Map::empty() },
                probation: None,
                constitution: constitution_manager@,
                registry: protocol_manager@,
                hot_swap: HotSwapState::Idle,
            }),
    {
        Microkernel {
            lease_manager: LeaseManager::new(config.lease_config),
            runlevel_manager: RunlevelManager::new(),
            version_manager: VersionManager::new(config.base_dir.as_str()),
            state_store: StateStore::new(config.base_dir.as_str()),
            capability_manager: CapabilityManager::new(config.base_dir.as_str()),
            resource_monitor: ResourceMonitor::new(config.resource_limits),
            probation: None,
            constitution_manager,
            protocol_manager,
            hot_swap: HotSwapState::Idle,
            config,
        }
    }

    /// Attempts a transition on the kernel's own account.
    pub fn attempt_runlevel_transition(
        &mut self,
        to: Runlevel,
        reason: &str,
        automatic: bool,
    ) -> (v: Vec<Action>)
        requires
            old(self).wf(),
        ensures
            final(self).wf(),
            final(self)@ == (KernelState {
                runlevel: old(self)@.runlevel.moved_to(to),
                ..old(self)@
            }),
            acts(v@) == transition_acts(old(self)@.runlevel, to, reason@, automatic),
            all_wf(v@),
    {
        let description = reason.to_owned();
        let r = self.runlevel_manager.transition(to, TransitionReason { description, automatic });
        let from = match r {
            Ok(level) => level,
            Err(_) => {
                return no_actions();
            },
        };
        if from == to {
            return no_actions();
        }
        let mut details = Json::object();
        details.set("from", Json::number(from.as_u8() as u64));
        details.set("to", Json::number(to.as_u8() as u64));
        details.set("reason", Json::text(reason));
        details.set("automatic", Json::Bool(automatic));
        let mut v = one_action(level_change(from, to, reason));
        push_action(
            &mut v,
            Action::Audit { event: "runlevel_change".to_owned(), version: None, details },
        );
        if to == Runlevel::Halt {
            push_action(&mut v, shut_down());
        }
        assert(acts(v@) =~= transition_acts(old(self)@.runlevel, to, reason@, automatic));
        v
    }

    /// Answers a handshake. A peer without the capabilities of its role is
    /// dropped; any other gets a lease and is welcomed.
    pub fn handle_hello(&mut self, from: &str, id: &str, hello: &Hello, now: u64) -> (v: Vec<
        Action,
    >)
        requires
            old(self).wf(),
            hello.capabilities.wf(),
            now + old(self)@.leases.config.lease_duration <= u64::MAX,
        ensures
            final(self).wf(),
            all_wf(v@),
            (final(self)@, acts(v@)) == old(self)@.after_hello(
                from@,
                id@,
                hello.capabilities.tree(),
                now,
            ),
    {
        if CapabilityRegistry::validate(from, &hello.capabilities).is_err() {
            return one_action(Action::RemovePeer(from.to_owned()));
        }
        self.lease_manager.register(from.to_owned(), now);
        let welcome = Welcome {
            accepted_capabilities: hello.capabilities.copy(),
            runlevel: self.runlevel_manager.current().as_u8(),
        };
        one_action(
            Action::Send(boot_envelope(from, msg_types::WELCOME, id, welcome.to_json())),
        )
    }

    /// Completes a handshake once the peer has been sent its welcome: a new
    /// peripheral ends the hot swap that was waiting for it.
    pub fn handshake_complete(&mut self, from: &str) -> (v: Vec<Action>)
        requires
            old(self).wf(),
        ensures
            final(self).wf(),
            all_wf(v@),
            (final(self)@, acts(v@)) == old(self)@.after_welcome(from@),
    {
        if !str_eq(from, "peripheral") {
            return no_actions();
        }
        let version = match &self.hot_swap {
            HotSwapState::WaitingForNewHandshake { new_version, .. } => new_version.clone(),
            _ => {
                return no_actions();
            },
        };
        self.hot_swap = HotSwapState::Idle;
        one_action(
            Action::Audit {
                event: "hot_swap_complete".to_owned(),
                version: Some(version),
                details: Json::object(),
            },
        )
    }

    /// Whether a peer is held to the limits of probation.
    pub fn is_on_probation(&self, peer: &str) -> (b: bool)
        ensures
            b == self@.on_probation(peer@),
    {
        self.probation.is_some() && str_eq(peer, "peripheral")
    }

    /// Holds a health report against the limits.
    fn check_health(
        &mut self,
        peer: &str,
        health: &HealthReport,
        cpu: &LimitReading,
    ) -> (v: Vec<Action>)
        requires
            old(self).wf(),
        ensures
            final(self).wf(),
            all_wf(v@),
            (final(self)@, acts(v@)) == old(self)@.after_health(
                peer@,
                health.memory_bytes as nat,
                cpu@,
            ),
    {
        let on_probation = self.is_on_probation(peer);
        let ghost start = self@.monitor;
        assert(!start.degrades(peer@));
        let violations = self.resource_monitor.check_health(peer, health, cpu, on_probation);
        let mut v = alerts(&violations);
        if self.resource_monitor.should_degrade(peer) {
            let mut reason = "Peer '".to_owned();
            reason.append(peer);
            reason.append("' exceeded resource hard limits consecutively");
            proof {
                assert forall|p: Seq<char>| p != peer@ implies !#[trigger]
                    self.resource_monitor@.degrades(p) by {
                    assert(!start.degrades(p));
                }
                lemma_forgotten(self.resource_monitor@, peer@);
            }
            self.resource_monitor.reset_violations(peer);
            let more = self.attempt_runlevel_transition(Runlevel::Safe, reason.as_str(), true);
            append_actions(&mut v, more);
        } else {
            proof {
                assert forall|p: Seq<char>| !#[trigger] self.resource_monitor@.degrades(p) by {
                    assert(!start.degrades(p));
                }
            }
        }
        v
    }

    /// Answers a lease renewal. With a health report come the limits: `cpu` is
    /// its CPU reading held against them.
    pub fn handle_lease_renew(
        &mut self,
        from: &str,
        id: &str,
        health: Option<(HealthReport, LimitReading)>,
        now: u64,
        now_unix: u64,
    ) -> (v: Vec<Action>)
        requires
            old(self).wf(),
            now + old(self)@.leases.config.lease_duration <= u64::MAX,
            now + old(self)@.leases.config.probation_lease_duration <= u64::MAX,
            now_unix + old(self)@.leases.config.lease_duration <= u64::MAX,
            now_unix + old(self)@.leases.config.probation_lease_duration <= u64::MAX,
        ensures
            final(self).wf(),
            all_wf(v@),
            (final(self)@, acts(v@)) == old(self)@.after_renewal(
                from@,
                id@,
                match health {
                    Some(h) => Some((h.0, h.1@)),
                    None => None,
                },
                now,
                now_unix,
            ),
    {
        let report = match &health {
            Some(h) => Some(h.0),
            None => None,
        };
        let deadline: u64 = match self.lease_manager.renew(from, report, now, now_unix) {
            Some(d) => d,
            None => {
                return no_actions();
            },
        };
        let mut v = match &health {
            Some(h) => self.check_health(from, &h.0, &h.1),
            None => no_actions(),
        };
        let ack = LeaseAck { next_deadline_ms: deadline };
        push_action(
            &mut v,
            Action::Send(boot_envelope(from, msg_types::LEASE_ACK, id, ack.to_json())),
        );
        v
    }

    /// Goes on with a hot swap whose old peripheral is gone: the new one is to
    /// be started.
    pub fn advance_hot_swap_after_disconnect(&mut self) -> (v: Vec<Action>)
        requires
            old(self).wf(),
        ensures
            final(self).wf(),
            all_wf(v@),
            (final(self)@, acts(v@)) == old(self)@.swap_advanced(),
    {
        let (binary, version, old_version) = match &self.hot_swap {
            HotSwapState::WaitingForOldDisconnect {
                new_version,
                new_binary,
                old_version,
                initiated_at,
            } => (new_binary.clone(), new_version.clone(), old_version.clone()),
            _ => {
                return no_actions();
            },
        };
        self.hot_swap = HotSwapState::Idle;
        one_action(Action::SpawnPeripheral { binary, version, old_version })
    }

    /// Deals with a peer that was declared dead.
    pub fn handle_dead_peer(&mut self, identity: &str) -> (v: Vec<Action>)
        requires
            old(self).wf(),
            old(self)@.runlevel.crashes < u32::MAX,
        ensures
            final(self).wf(),
            all_wf(v@),
            (final(self)@, acts(v@)) == old(self)@.after_death(identity@),
            final(self)@.runlevel.crashes <= old(self)@.runlevel.crashes + 1,
    {
        let during_hot_swap = str_eq(identity, "peripheral") && (match &self.hot_swap {
            HotSwapState::WaitingForOldDisconnect { .. } => true,
            _ => false,
        });
        let mut v = one_action(Action::RemovePeer(identity.to_owned()));
        self.lease_manager.remove(identity);
        proof {
            lemma_forgotten(self.resource_monitor@, identity@);
        }
        self.resource_monitor.remove_peer(identity);
        assert(self@ == old(self)@.without_peer(identity@));
        if during_hot_swap {
            let more = self.advance_hot_swap_after_disconnect();
            append_actions(&mut v, more);
        } else {
            match self.runlevel_manager.record_crash() {
                Some(suggested) => {
                    let mut reason = "Peer '".to_owned();
                    reason.append(identity);
                    reason.append("' dead — consecutive failures triggered degradation");
                    let more = self.attempt_runlevel_transition(suggested, reason.as_str(), true);
                    append_actions(&mut v, more);
                },
                None => {},
            }
        }
        v
    }

    /// Checks all leases and deals with the peers that are dead.
    pub fn check_leases(&mut self, now: u64) -> (v: Vec<Action>)
        requires
            old(self).wf(),
            forall|k: Seq<char>| #[trigger] old(self)@.leases.checkable(k),
            old(self)@.runlevel.crashes + old(self).lease_manager.peers().len() <= u32::MAX,
        ensures
            final(self).wf(),
            all_wf(v@),
            (final(self)@, acts(v@)) == (KernelState {
                leases: LeaseState {
                    leases: old(self)@.leases.leases.map_values(
                        |e: LeaseEntry| e.checked(now),
                    ),
                    ..old(self)@.leases
                },
                ..old(self)@
            }).after_reports(
                lease_reports(old(self).lease_manager.peers(), old(self)@.leases, now),
            ),
    {
        let ghost peers = self.lease_manager.peers();
        let ghost start = self@;
        let statuses = self.lease_manager.check_all(now);
        let ghost reports = named(statuses@);
        let ghost swept = self@;
        proof {
            lemma_reports_bounded(peers, start.leases, now);
        }
        let mut v = no_actions();
        let mut i: usize = 0;
        while i < statuses.len()
            invariant
                i <= statuses@.len(),
                self.wf(),
                all_wf(v@),
                reports == named(statuses@),
                reports.len() <= peers.len(),
                start.runlevel.crashes + peers.len() <= u32::MAX,
                self@.runlevel.crashes <= start.runlevel.crashes + i,
                (self@, acts(v@)) == swept.after_reports(reports.take(i as int)),
            decreases statuses@.len() - i,
        {
            assert(reports.take(i + 1).drop_last() =~= reports.take(i as int));
            assert(reports.take(i + 1).last() == (statuses@[i as int].0@, statuses@[i as int].1));
            let more = self.handle_dead_peer(statuses[i].0.as_str());
            append_actions(&mut v, more);
            i += 1;
        }
        assert(reports.take(statuses@.len() as int) =~= reports);
        v
    }

    /// Deals with the outcome of starting a peripheral during a hot swap: wait
    /// for its handshake, or go back to the previous version.
    pub fn peripheral_spawned(
        &mut self,
        new_version: &str,
        old_version: &str,
        outcome: Result<(), String>,
        now: u64,
    ) -> (v: Vec<Action>)
        requires
            old(self).wf(),
        ensures
            final(self).wf(),
            all_wf(v@),
            (final(self)@, acts(v@)) == old(self)@.after_spawn(
                new_version@,
                old_version@,
                match outcome {
                    Ok(_) => None,
                    Err(e) => Some(e@),
                },
                now,
            ),
    {
        match outcome {
            Ok(()) => {
                self.hot_swap = HotSwapState::WaitingForNewHandshake {
                    new_version: new_version.to_owned(),
                    old_version: old_version.to_owned(),
                    initiated_at: now,
                };
                no_actions()
            },
            Err(e) => {
                let mut details = Json::object();
                details.set("error", Json::text(e.as_str()));
                let mut v = one_action(Action::RollBack);
                push_action(
                    &mut v,
                    Action::Audit {
                        event: "hot_swap_failed".to_owned(),
                        version: Some(new_version.to_owned()),
                        details,
                    },
                );
                assert(acts(v@) =~= seq![
                    Act::RollBack,
                    Act::Audit {
                        event: "hot_swap_failed"@,
                        version: Some(new_version@),
                        details: details.tree(),
                    },
                ]);
                v
            },
        }
    }

    /// The binary of a version.
    pub fn version_binary(&self, version: &str) -> (p: String)
        ensures
            p@ == binary_of(self@.base_dir, version@),
    {
        join(
            join(join(self.config.base_dir.as_str(), "peripheral").as_str(), version).as_str(),
            "binary",
        )
    }

    /// Looks after a hot swap: an old peripheral that does not go, and a new
    /// one that does not come, are given up after a while.
    pub fn check_hot_swap(&mut self, now: u64) -> (v: Vec<Action>)
        requires
            old(self).wf(),
        ensures
            final(self).wf(),
            all_wf(v@),
            (final(self)@, acts(v@)) == old(self)@.after_swap_check(now),
    {
        let (new_version, old_version) = match &self.hot_swap {
            HotSwapState::Idle => {
                return no_actions();
            },
            HotSwapState::WaitingForOldDisconnect { initiated_at, .. } => {
                if now < *initiated_at || now - *initiated_at <= HOT_SWAP_DISCONNECT_TIMEOUT_MS {
                    return no_actions();
                }
                let mut v = one_action(Action::RemovePeer("peripheral".to_owned()));
                self.lease_manager.remove("peripheral");
                let more = self.advance_hot_swap_after_disconnect();
                append_actions(&mut v, more);
                return v;
            },
            HotSwapState::WaitingForNewHandshake { new_version, old_version, initiated_at } => {
                if now < *initiated_at || now - *initiated_at <= HOT_SWAP_HANDSHAKE_TIMEOUT_MS {
                    return no_actions();
                }
                (new_version.clone(), old_version.clone())
            },
        };
        let binary = self.version_binary(old_version.as_str());
        self.hot_swap = HotSwapState::Idle;
        let mut details = Json::object();
        details.set("rolled_back_to", Json::text(old_version.as_str()));
        let mut v = one_action(Action::RollBackAndSpawn { binary, version: old_version });
        push_action(
            &mut v,
            Action::Audit {
                event: "hot_swap_timeout_rollback".to_owned(),
                version: Some(new_version),
                details,
            },
        );
        assert(acts(v@) =~= seq![
            Act::RollBackAndSpawn { binary: binary@, version: old_version@ },
            Act::Audit {
                event: "hot_swap_timeout_rollback"@,
                version: Some(new_version@),
                details: details.tree(),
            },
        ]);
        v
    }

    /// Answers a request for another runlevel.
    pub fn handle_runlevel_request(
        &mut self,
        from: &str,
        id: &str,
        request: &RunlevelRequest,
    ) -> (v: Vec<Action>)
        requires
            old(self).wf(),
        ensures
            final(self).wf(),
            all_wf(v@),
            (final(self)@, acts(v@)) == runlevel_requested(
                old(self)@,
                from@,
                id@,
                request.to,
                request.reason@,
            ),
    {
        let from_level = self.runlevel_manager.current();
        let target = match Runlevel::from_u8(request.to) {
            Some(r) => r,
            None => {
                let mut reason = "Invalid runlevel: ".to_owned();
                reason.append(decimal(request.to as u64).as_str());
                let result = RunlevelRequestResult {
                    accepted: false,
                    from: from_level.as_u8(),
                    to: request.to,
                    reason,
                };
                return one_action(
                    Action::Send(
                        boot_envelope(
                            from,
                            msg_types::RUNLEVEL_REQUEST_RESULT,
                            id,
                            result.to_json(),
                        ),
                    ),
                );
            },
        };
        let mut description = "Requested by ".to_owned();
        description.append(from);
        description.append(": ");
        description.append(request.reason.as_str());
        let outcome = self.runlevel_manager.transition(
            target,
            TransitionReason { description, automatic: false },
        );
        let (accepted, reason) = match outcome {
            Ok(_) => (true, request.reason.clone()),
            Err(e) => (false, e),
        };
        let result = RunlevelRequestResult {
            accepted,
            from: from_level.as_u8(),
            to: target.as_u8(),
            reason: reason.clone(),
        };
        let mut v = one_action(
            Action::Send(
                boot_envelope(from, msg_types::RUNLEVEL_REQUEST_RESULT, id, result.to_json()),
            ),
        );
        if accepted {
            let mut details = Json::object();
            details.set("from", Json::number(from_level.as_u8() as u64));
            details.set("to", Json::number(target.as_u8() as u64));
            details.set("reason", Json::text(reason.as_str()));
            details.set("requested_by", Json::text(from));
            push_action(&mut v, level_change(from_level, target, reason.as_str()));
            push_action(
                &mut v,
                Action::Audit { event: "runlevel_change".to_owned(), version: None, details },
            );
            if target == Runlevel::Halt {
                push_action(&mut v, shut_down());
            }
        }
        proof {
            assert(acts(v@) =~= runlevel_requested(
                old(self)@,
                from@,
                id@,
                request.to,
                request.reason@,
            ).1);
        }
        v
    }

    /// Leaves evolve mode where the average CPU usage is too high; `avg_cpu`
    /// is its notation with one decimal place.
    pub fn check_resource_based_transitions(
        &mut self,
        cpu_below_threshold: bool,
        avg_cpu: &str,
    ) -> (v: Vec<Action>)
        requires
            old(self).wf(),
        ensures
            final(self).wf(),
            all_wf(v@),
            (final(self)@, acts(v@)) == old(self)@.after_cpu_check(
                cpu_below_threshold,
                avg_cpu@,
            ),
    {
        if !self.runlevel_manager.should_exit_evolve(cpu_below_threshold) {
            return no_actions();
        }
        let mut reason = "Resource pressure too high for evolve mode (avg CPU: ".to_owned();
        reason.append(avg_cpu);
        reason.append("%)");
        self.attempt_runlevel_transition(Runlevel::Normal, reason.as_str(), true)
    }
}

/// The binary of a version.
pub open spec fn binary_of(base_dir: Seq<char>, version: Seq<char>) -> Seq<char> {
    joined(joined(joined(base_dir, "peripheral"@), version), "binary"@)
}

/// The state and the actions after a request for another runlevel.
pub open spec fn runlevel_requested(
    s: KernelState,
    from: Seq<char>,
    id: Seq<char>,
    to: u8,
    reason: Seq<char>,
) -> (KernelState, Seq<Act>) {
    let level = s.runlevel.level;
    match Runlevel::of_number(to) {
        None => (
            s,
            seq![
                Act::Send(
                    boot_letter(
                        from,
                        "RunlevelRequestResult"@,
                        id,
                        runlevel_request_result_tree(
                            false,
                            level.number(),
                            to,
                            "Invalid runlevel: "@ + dec(to as nat),
                        ),
                    ),
                ),
            ],
        ),
        Some(target) => {
        let description = "Requested by "@ + from + ": "@ + reason;
        let accepted = level == target || valid_transition(level, target);
        let answer = if accepted {
            reason
        } else {
            transition_error(level, target, description)
        };
        (
            KernelState { runlevel: s.runlevel.moved_to(target), ..s },
            seq![
                Act::Send(
                    boot_letter(
                        from,
                        "RunlevelRequestResult"@,
                        id,
                        runlevel_request_result_tree(accepted, level.number(), to, answer),
                    ),
                ),
            ] + if accepted {
                seq![
                    Act::Broadcast(level_change_letter(level, target, reason)),
                    Act::Audit {
                        event: "runlevel_change"@,
                        version: None,
                        details: empty_object().set(
                            "from"@,
                            JsonTree::Number(number_of(level.number() as u64)),
                        ).set("to"@, JsonTree::Number(number_of(to as u64))).set(
                            "reason"@,
                            JsonTree::Text(reason),
                        ).set("requested_by"@, JsonTree::Text(from)),
                    },
                ] + if target is Halt {
                    seq![Act::Broadcast(halt_letter())]
                } else {
                    Seq::empty()
                }
            } else {
                Seq::empty()
            },
        )
        },
    }
}

/// The announcement of another runlevel.
fn level_change(from: Runlevel, to: Runlevel, reason: &str) -> (a: Action)
    ensures
        a@ == Act::Broadcast(level_change_letter(from, to, reason@)),
        a.wf(),
{
    let change = RunlevelChange {
        from: from.as_u8(),
        to: to.as_u8(),
        reason: reason.to_owned(),
    };
    let none = String::new();
    Action::Broadcast(
        boot_envelope(
            none.as_str(),
            msg_types::RUNLEVEL_CHANGE,
            none.as_str(),
            change.to_json(),
        ),
    )
}

/// The order to every peer to shut down.
fn shut_down() -> (a: Action)
    ensures
        a@ == Act::Broadcast(halt_letter()),
        a.wf(),
{
    let shutdown = Shutdown {
        reason: "System entering Halt runlevel".to_owned(),
        grace_ms: 5000,
    };
    let none = String::new();
    Action::Broadcast(
        boot_envelope(none.as_str(), msg_types::SHUTDOWN, none.as_str(), shutdown.to_json()),
    )
}

/// The alerts for the hard violations among the given ones.
fn alerts(violations: &Vec<ResourceViolation>) -> (v: Vec<Action>)
    ensures
        acts(v@) == alert_acts(violation_views(violations@)),
        all_wf(v@),
{
    let ghost all = violation_views(violations@);
    let mut v = no_actions();
    let mut i: usize = 0;
    assert(all.take(0).len() == 0);
    while i < violations.len()
        invariant
            i <= violations@.len(),
            all == violation_views(violations@),
            all_wf(v@),
            acts(v@) == alert_acts(all.take(i as int)),
        decreases violations@.len() - i,
    {
        assert(all.take(i + 1).drop_last() =~= all.take(i as int));
        let x = &violations[i];
        assert(all.take(i + 1).last() == x@);
        if x.severity == ViolationSeverity::Hard {
            let alert = ResourceViolationAlert {
                peer: x.peer.clone(),
                resource: x.resource.clone(),
                current_value: x.current_value.clone(),
                limit_value: x.limit_value.clone(),
                severity: "hard".to_owned(),
            };
            push_action(
                &mut v,
                Action::Audit {
                    event: "resource_violation".to_owned(),
                    version: None,
                    details: alert.to_json(),
                },
            );
        }
        i += 1;
    }
    assert(all.take(violations@.len() as int) =~= all);
    v
}

proof fn lemma_reports_bounded(keys: Seq<Seq<char>>, s: LeaseState, now: u64)
    ensures
        lease_reports(keys, s, now).len() <= keys.len(),
    decreases keys.len(),
{
    if keys.len() > 0 {
        lemma_reports_bounded(keys.drop_last(), s, now);
    }
}

/// The death of the old peripheral during a hot swap is no crash: the runlevel
/// stays, and the new version is started.
pub proof fn law_swap_death_is_no_crash(s: KernelState)
    requires
        s.hot_swap is WaitingForOldDisconnect,
    ensures
        s.after_death("peripheral"@).0.runlevel == s.runlevel,
        s.after_death("peripheral"@).0.hot_swap is Idle,
        s.after_death("peripheral"@).1.len() == 2,
        s.after_death("peripheral"@).1[1] == (Act::SpawnPeripheral {
            binary: s.hot_swap->new_binary,
            version: s.hot_swap->WaitingForOldDisconnect_new_version,
            old_version: s.hot_swap->WaitingForOldDisconnect_old_version,
        }),
{
}

/// Two deaths in a row put a system in normal operation into safe mode.
pub proof fn law_two_deaths_degrade(s: KernelState, a: Seq<char>, b: Seq<char>)
    requires
        s.runlevel.level is Normal,
        s.runlevel.crashes == 0,
        !(s.hot_swap is WaitingForOldDisconnect),
    ensures
        s.after_death(a).0.runlevel.level is Normal,
        s.after_death(a).0.after_death(b).0.runlevel.level is Safe,
{
}

/// A dead peer loses its lease, and no other peer does.
pub proof fn law_death_removes_only_its_lease(
    s: KernelState,
    peer: Seq<char>,
    other: Seq<char>,
)
    requires
        other != peer,
    ensures
        !s.after_death(peer).0.leases.leases.contains_key(peer),
        s.after_death(peer).0.leases.leases.contains_key(other) == s.leases.leases.contains_key(
            other,
        ),
{
}

/// Whether an action announces a runlevel.
pub open spec fn announces_level(a: Act) -> bool {
    a is Broadcast && a->Broadcast_0.msg_type == "RunlevelChange"@
}

/// A transition is announced to all peers exactly when it happens.
pub proof fn law_transitions_are_announced(
    s: RunlevelState,
    to: Runlevel,
    reason: Seq<char>,
    automatic: bool,
)
    ensures
        transition_acts(s, to, reason, automatic).len() > 0 <==> s.moved_to(to).level != s.level,
        transition_acts(s, to, reason, automatic).len() > 0 ==> announces_level(
            transition_acts(s, to, reason, automatic)[0],
        ),
{
}

/// A peer may take part exactly where its role is one of the known ones and it
/// declares what the role asks for.
pub proof fn law_roles_need_their_capabilities(role: Seq<char>, list: Seq<JsonTree>)
    ensures
        handshake_error("compiler"@, JsonTree::List(list)) is None <==> declares(list, "compile"@),
        handshake_error("judge"@, JsonTree::List(list)) is None <==> declares(list, "test"@)
            && declares(list, "score"@),
        handshake_error("audit"@, JsonTree::List(list)) is None <==> declares(list, "log_write"@)
            && declares(list, "log_query"@),
        handshake_error("peripheral"@, JsonTree::List(list)) is None <==> declares(list, "agent"@),
        role != "compiler"@ && role != "judge"@ && role != "audit"@ && role != "peripheral"@
            ==> handshake_error(role, JsonTree::List(list)) is Some,
        forall|t: JsonTree| !(t is List) ==> #[trigger] handshake_error(role, t) is Some,
{
    reveal_strlit("compiler");
    reveal_strlit("judge");
    reveal_strlit("audit");
    reveal_strlit("peripheral");
    assert("compiler"@.len() == 8);
    assert("judge"@.len() == 5);
    assert("audit"@.len() == 5);
    assert("peripheral"@.len() == 10);
    assert("judge"@[0] == 'j');
    assert("audit"@[0] == 'a');
    reveal_with_fuel(first_missing, 3);
    assert(seq!["compile"@].drop_first() =~= Seq::empty());
    assert(seq!["agent"@].drop_first() =~= Seq::empty());
    assert(seq!["test"@, "score"@].drop_first() =~= seq!["score"@]);
    assert(seq!["score"@].drop_first() =~= Seq::empty());
    assert(seq!["log_write"@, "log_query"@].drop_first() =~= seq!["log_query"@]);
    assert(seq!["log_query"@].drop_first() =~= Seq::empty());
}

/// A peer that may take part gets a lease from now on and a welcome that answers
/// its message; one that may not is dropped and changes nothing. Other leases
/// stay.
pub proof fn law_peers_are_welcomed_or_dropped(
    s: KernelState,
    from: Seq<char>,
    other: Seq<char>,
    id: Seq<char>,
    capabilities: JsonTree,
    now: u64,
)
    requires
        other != from,
        now + s.leases.config.lease_duration <= u64::MAX,
    ensures
        ({
            let (t, v) = s.after_hello(from, id, capabilities, now);
            &&& v.len() == 1
            &&& handshake_error(from, capabilities) is Some ==> t == s && v[0] == Act::RemovePeer(
                from,
            )
            &&& handshake_error(from, capabilities) is None ==> {
                &&& t.leases.leases.contains_key(from)
                &&& t.leases.leases[from].deadline == now + s.leases.config.lease_duration
                &&& t.leases.leases[from].missed_count == 0
                &&& v[0] is Send
                &&& v[0]->Send_0.to == from
                &&& v[0]->Send_0.id == id
                &&& v[0]->Send_0.msg_type == "Welcome"@
            }
            &&& t.leases.leases.contains_key(other) == s.leases.leases.contains_key(other)
            &&& s.leases.leases.contains_key(other) ==> t.leases.leases[other]
                == s.leases.leases[other]
            &&& t.runlevel == s.runlevel
            &&& t.hot_swap == s.hot_swap
            &&& t.probation == s.probation
            &&& t.monitor == s.monitor
        }),
{
}

/// A hot swap ends with the handshake of the new peripheral, and with no other.
pub proof fn law_hot_swaps_end_with_the_new_peripheral(s: KernelState, from: Seq<char>)
    ensures
        from == "peripheral"@ && s.hot_swap is WaitingForNewHandshake ==> {
            &&& s.after_welcome(from).0.hot_swap is Idle
            &&& s.after_welcome(from).1.len() == 1
            &&& s.after_welcome(from).1[0] is Audit
            &&& s.after_welcome(from).1[0]->Audit_event == "hot_swap_complete"@
            &&& s.after_welcome(from).1[0]->Audit_version == Some(
                s.hot_swap->WaitingForNewHandshake_new_version,
            )
        },
        !(from == "peripheral"@ && s.hot_swap is WaitingForNewHandshake) ==> s.after_welcome(from).0
            == s && s.after_welcome(from).1.len() == 0,
        s.after_welcome(from).0.leases == s.leases,
        s.after_welcome(from).0.runlevel == s.runlevel,
{
}

/// A renewal is acknowledged to the peer that sent it, in answer to its message,
/// and prolongs its lease alone; without a lease there is nothing to renew.
pub proof fn law_renewals_are_acknowledged(
    s: KernelState,
    from: Seq<char>,
    other: Seq<char>,
    id: Seq<char>,
    health: Option<(HealthReport, Reading)>,
    now: u64,
    now_unix: u64,
)
    requires
        other != from,
        now + s.leases.config.lease_duration <= u64::MAX,
        now + s.leases.config.probation_lease_duration <= u64::MAX,
    ensures
        ({
            let (t, v) = s.after_renewal(from, id, health, now, now_unix);
            &&& !s.leases.leases.contains_key(from) ==> t == s && v.len() == 0
            &&& s.leases.leases.contains_key(from) ==> {
                &&& v.len() > 0
                &&& v.last() is Send
                &&& v.last()->Send_0.to == from
                &&& v.last()->Send_0.id == id
                &&& v.last()->Send_0.msg_type == "LeaseAck"@
                &&& t.leases.leases.contains_key(from)
                &&& t.leases.leases[from].missed_count == 0
                &&& t.leases.leases[from].deadline == now + (if s.leases.leases[from].probation {
                    s.leases.config.probation_lease_duration
                } else {
                    s.leases.config.lease_duration
                })
                &&& health is None ==> v.len() == 1 && t.runlevel == s.runlevel && t.monitor
                    == s.monitor
            }
            &&& t.leases.leases.contains_key(other) == s.leases.leases.contains_key(other)
            &&& s.leases.leases.contains_key(other) ==> t.leases.leases[other]
                == s.leases.leases[other]
            &&& t.hot_swap == s.hot_swap
            &&& t.probation == s.probation
        }),
{
}

/// A new peripheral that was started is waited for; where it could not be, the
/// kernel goes back to the previous version and says why.
pub proof fn law_failed_starts_are_rolled_back(
    s: KernelState,
    new: Seq<char>,
    old_version: Seq<char>,
    e: Seq<char>,
    now: u64,
)
    ensures
        s.after_spawn(new, old_version, None, now).0.hot_swap == (
        HotSwapState::WaitingForNewHandshake { new_version: new, old_version, initiated_at: now }),
        s.after_spawn(new, old_version, None, now).1.len() == 0,
        s.after_spawn(new, old_version, Some(e), now).0 == s,
        s.after_spawn(new, old_version, Some(e), now).1.contains(Act::RollBack),
        s.after_spawn(new, old_version, Some(e), now).1.len() == 2,
        s.after_spawn(new, old_version, Some(e), now).1[1] is Audit,
        s.after_spawn(new, old_version, Some(e), now).1[1]->Audit_event == "hot_swap_failed"@,
        s.after_spawn(new, old_version, Some(e), now).1[1]->Audit_version == Some(new),
        s.after_spawn(new, old_version, Some(e), now).1[1]->Audit_details.get_text("error"@)
            == Some(e),
{
    assert(s.after_spawn(new, old_version, Some(e), now).1[0] == Act::RollBack);
}

/// A hot swap is left alone for a quarter of a minute while the old peripheral
/// goes and for a minute while the new one comes. After that the new one is
/// started all the same, and the old one again.
pub proof fn law_hot_swaps_are_given_up_after_a_while(s: KernelState, now: u64)
    ensures
        s.hot_swap is Idle ==> s.after_swap_check(now).0 == s && s.after_swap_check(now).1.len()
            == 0,
        s.hot_swap is WaitingForOldDisconnect && now
            <= s.hot_swap->WaitingForOldDisconnect_initiated_at + 15000 ==> s.after_swap_check(now).0
            == s && s.after_swap_check(now).1.len() == 0,
        s.hot_swap is WaitingForOldDisconnect && now
            > s.hot_swap->WaitingForOldDisconnect_initiated_at + 15000 ==> {
            &&& s.after_swap_check(now).0.hot_swap is Idle
            &&& !s.after_swap_check(now).0.leases.leases.contains_key("peripheral"@)
            &&& s.after_swap_check(now).1.len() == 2
            &&& s.after_swap_check(now).1[0] == Act::RemovePeer("peripheral"@)
            &&& s.after_swap_check(now).1[1] == (Act::SpawnPeripheral {
                binary: s.hot_swap->new_binary,
                version: s.hot_swap->WaitingForOldDisconnect_new_version,
                old_version: s.hot_swap->WaitingForOldDisconnect_old_version,
            })
        },
        s.hot_swap is WaitingForNewHandshake && now
            <= s.hot_swap->WaitingForNewHandshake_initiated_at + 60000 ==> s.after_swap_check(now).0
            == s && s.after_swap_check(now).1.len() == 0,
        s.hot_swap is WaitingForNewHandshake && now
            > s.hot_swap->WaitingForNewHandshake_initiated_at + 60000 ==> {
            &&& s.after_swap_check(now).0.hot_swap is Idle
            &&& s.after_swap_check(now).0.leases == s.leases
            &&& s.after_swap_check(now).1.len() == 2
            &&& s.after_swap_check(now).1[0] is RollBackAndSpawn
            &&& s.after_swap_check(now).1[0]->RollBackAndSpawn_version
                == s.hot_swap->WaitingForNewHandshake_old_version
            &&& s.after_swap_check(now).1[0]->RollBackAndSpawn_binary == binary_of(
                s.base_dir,
                s.hot_swap->WaitingForNewHandshake_old_version,
            )
            &&& s.after_swap_check(now).1[1] is Audit
            &&& s.after_swap_check(now).1[1]->Audit_event == "hot_swap_timeout_rollback"@
            &&& s.after_swap_check(now).1[1]->Audit_details.get_text("rolled_back_to"@) == Some(
                s.hot_swap->WaitingForNewHandshake_old_version,
            )
            &&& s.after_swap_check(now).1[1]->Audit_version == Some(
                s.hot_swap->WaitingForNewHandshake_new_version,
            )
        },
        s.after_swap_check(now).0.runlevel == s.runlevel,
{
}

/// Evolve mode is left for normal operation where the CPU usage is too high;
/// no other level is.
pub proof fn law_pressure_ends_evolution(s: KernelState, below: bool, avg: Seq<char>)
    ensures
        s.runlevel.level is Evolve && !below ==> s.after_cpu_check(below, avg).0.runlevel.level
            is Normal && s.after_cpu_check(below, avg).1.len() > 0 && announces_level(
            s.after_cpu_check(below, avg).1[0],
        ),
        !(s.runlevel.level is Evolve) || below ==> s.after_cpu_check(below, avg).0 == s
            && s.after_cpu_check(below, avg).1.len() == 0,
{
}

/// There is an alert for each hard violation, in their order, and none for a
/// soft one.
pub proof fn law_hard_violations_are_alerted(v: Seq<Violation>, x: Violation)
    ensures
        alert_acts(Seq::empty()).len() == 0,
        x.severity is Soft ==> alert_acts(v.push(x)) == alert_acts(v),
        x.severity is Hard ==> alert_acts(v.push(x)) == alert_acts(v).push(
            (Act::Audit {
                event: "resource_violation"@,
                version: None,
                details: resource_violation_alert_tree(
                    x.peer,
                    x.resource,
                    x.current,
                    x.limit,
                    "hard"@,
                ),
            }),
        ),
{
    assert(v.push(x).drop_last() =~= v);
}

/// A peripheral on probation is held to half of the memory, every other peer to
/// all of it.
pub proof fn law_probation_halves_the_memory(s: KernelState, peer: Seq<char>)
    ensures
        s.probation is Some ==> s.memory_limit("peripheral"@) == s.monitor.limits.max_memory_mb / 2,
        s.probation is None || peer != "peripheral"@ ==> s.memory_limit(peer)
            == s.monitor.limits.max_memory_mb,
{
}

/// A health report degrades the system exactly where it is the third in a row
/// that breaks a hard limit, and the count then begins anew.
pub proof fn law_third_broken_limit_degrades(
    s: KernelState,
    peer: Seq<char>,
    bytes: nat,
    cpu: Reading,
)
    requires
        s.monitor.strikes_of(peer) < 3,
    ensures
        ({
            let hard = bytes / 1048576 > s.memory_limit(peer) || cpu.over_max;
            let t = s.after_health(peer, bytes, cpu).0;
            &&& hard && s.monitor.strikes_of(peer) == 2 ==> t.runlevel == s.runlevel.moved_to(
                Runlevel::Safe,
            ) && t.monitor.strikes_of(peer) == 0
            &&& hard && s.monitor.strikes_of(peer) < 2 ==> t.runlevel == s.runlevel
                && t.monitor.strikes_of(peer) == s.monitor.strikes_of(peer) + 1
            &&& !hard ==> t.runlevel == s.runlevel && t.monitor.strikes_of(peer) == 0
            &&& t.leases == s.leases
            &&& t.hot_swap == s.hot_swap
        }),
{
    crate::resource::law_health_reports_are_held_against_the_limits(
        peer,
        bytes,
        s.memory_limit(peer),
        cpu,
    );
}

/// A death drops the peer first; it is a crash unless it is that of the old
/// peripheral in a hot swap, and the second crash in a row in normal operation
/// leads to safe mode.
pub proof fn law_deaths_are_counted(s: KernelState, peer: Seq<char>)
    ensures
        s.after_death(peer).1.len() > 0,
        s.after_death(peer).1[0] == Act::RemovePeer(peer),
        s.after_death(peer).0.monitor.strikes_of(peer) == 0,
        !(peer == "peripheral"@ && s.hot_swap is WaitingForOldDisconnect) ==> {
            &&& s.after_death(peer).0.runlevel.crashes == s.runlevel.crashes + 1
            &&& s.after_death(peer).0.hot_swap == s.hot_swap
            &&& s.runlevel.level is Normal && s.runlevel.crashes >= 1 ==> s.after_death(
                peer,
            ).0.runlevel.level is Safe
            &&& s.runlevel.level is Normal && s.runlevel.crashes == 0 ==> s.after_death(
                peer,
            ).0.runlevel.level is Normal
            &&& !(s.runlevel.level is Normal) ==> s.after_death(peer).0.runlevel.level
                == s.runlevel.level && s.after_death(peer).1.len() == 1
        },
{
}

/// Deaths are dealt with one after the other.
pub proof fn law_deaths_are_dealt_with_in_turn(
    s: KernelState,
    reports: Seq<(Seq<char>, LeaseStatus)>,
    peer: Seq<char>,
    status: LeaseStatus,
)
    ensures
        s.after_reports(Seq::empty()) == (s, Seq::<Act>::empty()),
        s.after_reports(reports.push((peer, status))).0 == s.after_reports(reports).0.after_death(
            peer,
        ).0,
        s.after_reports(reports.push((peer, status))).1 == s.after_reports(reports).1
            + s.after_reports(reports).0.after_death(peer).1,
{
    assert(reports.push((peer, status)).drop_last() =~= reports);
}

/// A request for a runlevel is answered to the peer that sent it; it is granted
/// exactly where the number is that of a level that can be moved to or is there
/// already, and then announced to all.
pub proof fn law_runlevel_requests_are_answered(
    s: KernelState,
    from: Seq<char>,
    id: Seq<char>,
    to: u8,
    reason: Seq<char>,
)
    ensures
        ({
            let (t, v) = runlevel_requested(s, from, id, to, reason);
            let target = Runlevel::of_number(to);
            let granted = target is Some && (target->0 == s.runlevel.level || valid_transition(
                s.runlevel.level,
                target->0,
            ));
            &&& v.len() > 0
            &&& v[0] is Send
            &&& v[0]->Send_0.to == from
            &&& v[0]->Send_0.id == id
            &&& v[0]->Send_0.msg_type == "RunlevelRequestResult"@
            &&& v[0]->Send_0.payload.get("accepted"@) == Some(JsonTree::Bool(granted))
            &&& granted ==> t.runlevel.level == target->0 && v.len() >= 3 && announces_level(v[1])
                && v[0]->Send_0.payload.get_text("reason"@) == Some(reason)
            &&& granted && target->0 is Halt ==> v.len() == 4 && v[3] == Act::Broadcast(
                halt_letter(),
            )
            &&& granted && !(target->0 is Halt) ==> v.len() == 3
            &&& !granted ==> t == s && v.len() == 1
            &&& t.leases == s.leases && t.hot_swap == s.hot_swap && t.probation == s.probation
        }),
{
    reveal_strlit("accepted");
    reveal_strlit("from");
    reveal_strlit("to");
    reveal_strlit("reason");
    assert("accepted"@.len() == 8);
    assert("from"@.len() == 4);
    assert("to"@.len() == 2);
    assert("reason"@.len() == 6);
}

/// A change of level says where it leads from and to and why, and so does what
/// is logged of it. On the way to a halt everybody is told to shut down.
pub proof fn law_level_changes_say_what_changes(
    s: RunlevelState,
    to: Runlevel,
    reason: Seq<char>,
    automatic: bool,
)
    requires
        s.level != to,
        valid_transition(s.level, to),
    ensures
        ({
            let v = transition_acts(s, to, reason, automatic);
            let d = v[1]->Audit_details;
            let p = v[0]->Broadcast_0.payload;
            &&& v[1] is Audit && v[1]->Audit_event == "runlevel_change"@
            &&& d.get("from"@) == Some(JsonTree::Number(number_of(s.level.number() as u64)))
            &&& d.get("to"@) == Some(JsonTree::Number(number_of(to.number() as u64)))
            &&& d.get_text("reason"@) == Some(reason)
            &&& d.get("automatic"@) == Some(JsonTree::Bool(automatic))
            &&& p.get("from"@) == Some(JsonTree::Number(number_of(s.level.number() as u64)))
            &&& p.get("to"@) == Some(JsonTree::Number(number_of(to.number() as u64)))
            &&& p.get_text("reason"@) == Some(reason)
            &&& to is Halt ==> v.len() == 3 && v[2] == Act::Broadcast(halt_letter())
            &&& !(to is Halt) ==> v.len() == 2
        }),
{
    reveal_strlit("automatic");
    reveal_strlit("from");
    reveal_strlit("to");
    reveal_strlit("reason");
    assert("automatic"@.len() == 9);
    assert("from"@.len() == 4);
    assert("to"@.len() == 2);
    assert("reason"@.len() == 6);
}

/// Letters of the boot process carry what they are given.
pub proof fn law_letters_come_from_the_boot_process(
    to: Seq<char>,
    msg_type: Seq<char>,
    id: Seq<char>,
    payload: JsonTree,
)
    ensures
        boot_letter(to, msg_type, id, payload).from == "boot"@,
        boot_letter(to, msg_type, id, payload).to == to,
        boot_letter(to, msg_type, id, payload).msg_type == msg_type,
        boot_letter(to, msg_type, id, payload).id == id,
        boot_letter(to, msg_type, id, payload).payload == payload,
{
}

/// Actions and messages are what their parts say.
pub proof fn law_actions_are_what_they_say(a: Action, e: Envelope)
    ensures
        e@.from == e.from@,
        e@.to == e.to@,
        e@.msg_type == e.msg_type@,
        e@.id == e.id@,
        e@.payload == e.payload.tree(),
        a is Send ==> a@ == Act::Send(a->Send_0@),
        a is Broadcast ==> a@ == Act::Broadcast(a->Broadcast_0@),
        a is Audit ==> a@ is Audit && a@->Audit_event == a->Audit_event@ && a@->Audit_version
            == opt_text(a->Audit_version) && a@->Audit_details == a->Audit_details.tree(),
        a is RemovePeer ==> a@ == Act::RemovePeer(a->RemovePeer_0@),
        a is Finalize ==> a@ == (Act::Finalize {
            version: a->Finalize_version@,
            envelope_id: a->Finalize_envelope_id@,
        }),
        a is SpawnPeripheral ==> a@ == (Act::SpawnPeripheral {
            binary: a->SpawnPeripheral_binary@,
            version: a->SpawnPeripheral_version@,
            old_version: a->SpawnPeripheral_old_version@,
        }),
        a is RollBack <==> a@ is RollBack,
        a is RollBackAndSpawn ==> a@ == (Act::RollBackAndSpawn {
            binary: a->RollBackAndSpawn_binary@,
            version: a->RollBackAndSpawn_version@,
        }),
{
}

/// The binary of a version lies in the version's directory below that of the
/// peripheral; a set-up for a home directory keeps everything below it.
pub proof fn law_files_lie_below_the_home_directory(
    base: Seq<char>,
    version: Seq<char>,
    home: &str,
    c: BootConfig,
)
    requires
        call_ensures(BootConfig::for_home, (home,), c),
    ensures
        binary_of(base, version) == joined(
            joined(joined(base, "peripheral"@), version),
            "binary"@,
        ),
        c.base_dir@ == joined(home@, ".reloopy"@),
        c.sock_path@ == joined(c.base_dir@, "reloopy.sock"@),
        c.lease_config.lease_duration == 2 * c.lease_config.probation_lease_duration,
        c.lease_config.lease_duration == 2 * c.lease_config.grace_period,
        c.lease_check_interval == c.lease_config.grace_period,
        c.lease_config.max_renewals_missed == 3,
        c.lease_config.lease_duration == 10_000,
{
}

/// Degradations name the peer that they are for.
pub proof fn law_degradations_name_the_peer(peer: Seq<char>)
    ensures
        contains_text(limits_reason(peer), peer),
        contains_text(death_reason(peer), peer),
{
    law_parts_are_found(
        "Peer '"@,
        peer,
        "' exceeded resource hard limits consecutively"@,
        limits_reason(peer),
    );
    law_parts_are_found(
        "Peer '"@,
        peer,
        "' dead — consecutive failures triggered degradation"@,
        death_reason(peer),
    );
}

/// The degradation for broken limits and for a death carries its reason to all
/// peers.
pub proof fn law_degradations_are_announced_with_their_reason(
    s: KernelState,
    peer: Seq<char>,
    bytes: nat,
    cpu: Reading,
)
    requires
        s.runlevel.level is Normal,
    ensures
        !(peer == "peripheral"@ && s.hot_swap is WaitingForOldDisconnect) && s.runlevel.crashes >= 1
            ==> {
            let v = s.after_death(peer).1;
            &&& v.len() == 3
            &&& announces_level(v[1])
            &&& v[1]->Broadcast_0.payload.get_text("reason"@) == Some(death_reason(peer))
        },
        (bytes / 1048576 > s.memory_limit(peer) || cpu.over_max) && s.monitor.strikes_of(peer) == 2
            ==> {
            let v = s.after_health(peer, bytes, cpu).1;
            &&& v.len() >= 2
            &&& announces_level(v[v.len() - 2])
            &&& v[v.len() - 2]->Broadcast_0.payload.get_text("reason"@) == Some(
                limits_reason(peer),
            )
        },
{
    crate::resource::law_health_reports_are_held_against_the_limits(
        peer,
        bytes,
        s.memory_limit(peer),
        cpu,
    );
    crate::messages::law_runlevel_change_holds_its_parts(2, 1, death_reason(peer));
    crate::messages::law_runlevel_change_holds_its_parts(2, 1, limits_reason(peer));
}

/// Transitions that the kernel makes by itself are logged as automatic.
pub proof fn law_own_transitions_are_automatic(
    s: KernelState,
    avg: Seq<char>,
    peer: Seq<char>,
)
    ensures
        s.runlevel.level is Evolve ==> {
            let v = s.after_cpu_check(false, avg).1;
            &&& v.len() == 2 && v[1] is Audit
            &&& v[1]->Audit_details.get("automatic"@) == Some(JsonTree::Bool(true))
            &&& v[1]->Audit_details.get_text("reason"@) is Some
            &&& contains_text(v[1]->Audit_details.get_text("reason"@)->0, avg)
        },
        s.runlevel.level is Normal && s.runlevel.crashes >= 1 && !(peer == "peripheral"@
            && s.hot_swap is WaitingForOldDisconnect) ==> {
            let v = s.after_death(peer).1;
            &&& v.len() == 3 && v[2] is Audit
            &&& v[2]->Audit_details.get("automatic"@) == Some(JsonTree::Bool(true))
        },
{
    let head = "Resource pressure too high for evolve mode (avg CPU: "@;
    let reason = head + avg + "%)"@;
    law_parts_are_found(head, avg, "%)"@, reason);
    if s.runlevel.level is Evolve {
        law_level_changes_say_what_changes(s.runlevel, Runlevel::Normal, reason, true);
    }
    if s.runlevel.level is Normal {
        law_level_changes_say_what_changes(
            s.without_peer(peer).runlevel.crashed(),
            Runlevel::Safe,
            death_reason(peer),
            true,
        );
    }
}

/// A degradation for broken limits comes behind the alerts, is logged as
/// automatic, and leads to safe mode.
pub proof fn law_degradations_for_limits_are_automatic(
    s: KernelState,
    peer: Seq<char>,
    bytes: nat,
    cpu: Reading,
)
    requires
        s.runlevel.level is Normal || s.runlevel.level is Evolve,
        s.monitor.strikes_of(peer) == 2,
        bytes / 1048576 > s.memory_limit(peer) || cpu.over_max,
    ensures
        ({
            let (t, v) = s.after_health(peer, bytes, cpu);
            &&& t.runlevel.level is Safe
            &&& v.len() >= 3
            &&& v.last() is Audit
            &&& v.last()->Audit_event == "runlevel_change"@
            &&& v.last()->Audit_details.get("automatic"@) == Some(JsonTree::Bool(true))
            &&& v.last()->Audit_details.get_text("reason"@) == Some(limits_reason(peer))
            &&& v[0] is Audit && v[0]->Audit_event == "resource_violation"@
        }),
{
    let limit = s.memory_limit(peer);
    let v = health_violations(peer, bytes, limit, cpu);
    crate::resource::law_health_reports_are_held_against_the_limits(peer, bytes, limit, cpu);
    law_level_changes_say_what_changes(s.runlevel, Runlevel::Safe, limits_reason(peer), true);
    let i = choose|i: int| 0 <= i < v.len() && (#[trigger] v[i]).severity is Hard;
    lemma_hard_is_alerted(v, i);
}

proof fn lemma_hard_is_alerted(v: Seq<Violation>, i: int)
    requires
        0 <= i < v.len(),
        v[i].severity is Hard,
    ensures
        alert_acts(v).len() > 0,
        alert_acts(v)[0] is Audit,
        alert_acts(v)[0]->Audit_event == "resource_violation"@,
    decreases v.len(),
{
    let d = v.drop_last();
    if i < d.len() {
        assert(d[i] == v[i]);
        lemma_hard_is_alerted(d, i);
    } else {
        lemma_alerts(d);
    }
}

proof fn lemma_alerts(v: Seq<Violation>)
    ensures
        alert_acts(v).len() > 0 ==> alert_acts(v)[0] is Audit && alert_acts(v)[0]->Audit_event
            == "resource_violation"@,
    decreases v.len(),
{
    if v.len() > 0 {
        lemma_alerts(v.drop_last());
    }
}

} // verus!
