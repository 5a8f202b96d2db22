//! Capability-based security for peripheral versions: what is not declared is
//! forbidden, and a new version may not ask for more than the one before it.

use crate::paths::{join, joined};
use crate::split::{lemma_texts_push, texts};
use crate::text::{dec, decimal, str_eq};
use vstd::prelude::*;
use vstd::string::*;

verus! {

#[derive(Debug, Clone)]
pub struct Capabilities {
    pub filesystem: FilesystemCaps,
    pub network: NetworkCaps,
    pub exec_caps: ExecCaps,
    pub ipc: Vec<String>,
    pub max_child_processes: u32,
}

#[derive(Debug, Clone)]
pub struct FilesystemCaps {
    pub read: Vec<String>,
    pub write: Vec<String>,
}

#[derive(Debug, Clone)]
pub struct NetworkCaps {
    pub allowed: bool,
    pub whitelist: Vec<String>,
}

#[derive(Debug, Clone)]
pub struct ExecCaps {
    pub allowed: bool,
    pub whitelist: Vec<String>,
}

/// The permissions that a `Capabilities` value declares.
pub ghost struct CapsView {
    pub read: Seq<Seq<char>>,
    pub write: Seq<Seq<char>>,
    pub network: bool,
    pub hosts: Seq<Seq<char>>,
    pub may_exec: bool,
    pub commands: Seq<Seq<char>>,
    pub ipc: Seq<Seq<char>>,
    pub children: u32,
}

impl View for Capabilities {
    type V = CapsView;

    open spec fn view(&self) -> CapsView {
        CapsView {
            read: texts(self.filesystem.read@),
            write: texts(self.filesystem.write@),
            network: self.network.allowed,
            hosts: texts(self.network.whitelist@),
            may_exec: self.exec_caps.allowed,
            commands: texts(self.exec_caps.whitelist@),
            ipc: texts(self.ipc@),
            children: self.max_child_processes,
        }
    }
}

/// No permissions at all.
pub open spec fn no_permissions() -> CapsView {
    CapsView {
        read: Seq::empty(),
        write: Seq::empty(),
        network: false,
        hosts: Seq::empty(),
        may_exec: false,
        commands: Seq::empty(),
        ipc: Seq::empty(),
        children: 0,
    }
}

impl Default for Capabilities {
    /// Denies everything.
    fn default() -> (c: Capabilities)
        ensures
            c@ == no_permissions(),
    {
        let c = Capabilities {
            filesystem: FilesystemCaps::default(),
            network: NetworkCaps::default(),
            exec_caps: ExecCaps::default(),
            ipc: Vec::new(),
            max_child_processes: 0,
        };
        proof {
            assert(c@.read =~= Seq::empty());
            assert(c@.write =~= Seq::empty());
            assert(c@.hosts =~= Seq::empty());
            assert(c@.commands =~= Seq::empty());
            assert(c@.ipc =~= Seq::empty());
        }
        c
    }
}

impl Default for FilesystemCaps {
    /// No paths.
    fn default() -> (c: FilesystemCaps)
        ensures
            c.read@ == Seq::<String>::empty(),
            c.write@ == Seq::<String>::empty(),
    {
        FilesystemCaps { read: Vec::new(), write: Vec::new() }
    }
}

impl Default for NetworkCaps {
    /// No network.
    fn default() -> (c: NetworkCaps)
        ensures
            !c.allowed,
            c.whitelist@ == Seq::<String>::empty(),
    {
        NetworkCaps { allowed: false, whitelist: Vec::new() }
    }
}

impl Default for ExecCaps {
    /// No commands.
    fn default() -> (c: ExecCaps)
        ensures
            !c.allowed,
            c.whitelist@ == Seq::<String>::empty(),
    {
        ExecCaps { allowed: false, whitelist: Vec::new() }
    }
}

/// One way in which a version asks for more than the one before it.
#[derive(Debug)]
pub enum EscalationViolation {
    NewFilesystemRead(Vec<String>),
    NewFilesystemWrite(Vec<String>),
    NetworkEscalation,
    NewNetworkWhitelist(Vec<String>),
    ExecEscalation,
    NewExecWhitelist(Vec<String>),
    NewIpcEndpoints(Vec<String>),
    ChildProcessEscalation { old: u32, new: u32 },
}

/// The content of an `EscalationViolation`.
pub ghost enum Escalation {
    NewFilesystemRead(Seq<Seq<char>>),
    NewFilesystemWrite(Seq<Seq<char>>),
    NetworkEscalation,
    NewNetworkWhitelist(Seq<Seq<char>>),
    ExecEscalation,
    NewExecWhitelist(Seq<Seq<char>>),
    NewIpcEndpoints(Seq<Seq<char>>),
    ChildProcessEscalation(u32, u32),
}

impl View for EscalationViolation {
    type V = Escalation;

    open spec fn view(&self) -> Escalation {
        match self {
            EscalationViolation::NewFilesystemRead(v) => Escalation::NewFilesystemRead(texts(v@)),
            EscalationViolation::NewFilesystemWrite(v) => Escalation::NewFilesystemWrite(
                texts(v@),
            ),
            EscalationViolation::NetworkEscalation => Escalation::NetworkEscalation,
            EscalationViolation::NewNetworkWhitelist(v) => Escalation::NewNetworkWhitelist(
                texts(v@),
            ),
            EscalationViolation::ExecEscalation => Escalation::ExecEscalation,
            EscalationViolation::NewExecWhitelist(v) => Escalation::NewExecWhitelist(texts(v@)),
            EscalationViolation::NewIpcEndpoints(v) => Escalation::NewIpcEndpoints(texts(v@)),
            EscalationViolation::ChildProcessEscalation { old: a, new: b } =>
                Escalation::ChildProcessEscalation(*a, *b),
        }
    }
}

/// The notation that `{:?}` gives a list of strings.
pub uninterp spec fn debug_list(items: Seq<Seq<char>>) -> Seq<char>;

/// `format!("{:?}", ..)` on a list of strings.
#[verifier::external_body]
fn list_notation(items: &Vec<String>) -> (s: String)
    ensures
        s@ == debug_list(texts(items@)),
{
    format!("{:?}", items)
}

impl Escalation {
    /// The sentence that describes the violation.
    pub open spec fn description(self) -> Seq<char> {
        match self {
            Escalation::NewFilesystemRead(v) => "New filesystem read paths: "@ + debug_list(v),
            Escalation::NewFilesystemWrite(v) => "New filesystem write paths: "@ + debug_list(v),
            Escalation::NetworkEscalation => "Network access escalation (was denied)"@,
            Escalation::NewNetworkWhitelist(v) => "New network whitelist entries: "@ + debug_list(
                v,
            ),
            Escalation::ExecEscalation => "Exec access escalation (was denied)"@,
            Escalation::NewExecWhitelist(v) => "New exec whitelist entries: "@ + debug_list(v),
            Escalation::NewIpcEndpoints(v) => "New IPC endpoints: "@ + debug_list(v),
            Escalation::ChildProcessEscalation(a, b) => "Child process limit escalation: "@ + dec(
                a as nat,
            ) + " -> "@ + dec(b as nat),
        }
    }
}

fn list_sentence(start: &str, items: &Vec<String>) -> (s: String)
    ensures
        s@ == start@ + debug_list(texts(items@)),
{
    let mut s = start.to_owned();
    s.append(list_notation(items).as_str());
    s
}

impl EscalationViolation {
    /// The sentence that describes the violation.
    pub fn describe(&self) -> (s: String)
        ensures
            s@ == self@.description(),
    {
        match self {
            EscalationViolation::NewFilesystemRead(v) => list_sentence(
                "New filesystem read paths: ",
                v,
            ),
            EscalationViolation::NewFilesystemWrite(v) => list_sentence(
                "New filesystem write paths: ",
                v,
            ),
            EscalationViolation::NetworkEscalation => {
                "Network access escalation (was denied)".to_owned()
            },
            EscalationViolation::NewNetworkWhitelist(v) => list_sentence(
                "New network whitelist entries: ",
                v,
            ),
            EscalationViolation::ExecEscalation => "Exec access escalation (was denied)".to_owned(),
            EscalationViolation::NewExecWhitelist(v) => list_sentence(
                "New exec whitelist entries: ",
                v,
            ),
            EscalationViolation::NewIpcEndpoints(v) => list_sentence("New IPC endpoints: ", v),
            EscalationViolation::ChildProcessEscalation { old: a, new: b } => {
                let mut s = "Child process limit escalation: ".to_owned();
                s.append(decimal(*a as u64).as_str());
                s.append(" -> ");
                s.append(decimal(*b as u64).as_str());
                s
            },
        }
    }
}

/// The entries of `asked` that `granted` does not have, in their order.
pub open spec fn new_entries(asked: Seq<Seq<char>>, granted: Seq<Seq<char>>) -> Seq<Seq<char>> {
    asked.filter(|e: Seq<char>| !granted.contains(e))
}

/// `v` where the condition holds, and nothing otherwise.
pub open spec fn when(condition: bool, v: Escalation) -> Seq<Escalation> {
    if condition {
        seq![v]
    } else {
        Seq::empty()
    }
}

/// All the ways in which `new` asks for more than `old`.
pub open spec fn escalations(old: CapsView, new: CapsView) -> Seq<Escalation> {
    let reads = new_entries(new.read, old.read);
    let writes = new_entries(new.write, old.write);
    let hosts = new_entries(new.hosts, old.hosts);
    let commands = new_entries(new.commands, old.commands);
    let ipc = new_entries(new.ipc, old.ipc);
    when(reads.len() > 0, Escalation::NewFilesystemRead(reads)) + when(
        writes.len() > 0,
        Escalation::NewFilesystemWrite(writes),
    ) + when(new.network && !old.network, Escalation::NetworkEscalation) + when(
        new.network && old.network && hosts.len() > 0,
        Escalation::NewNetworkWhitelist(hosts),
    ) + when(new.may_exec && !old.may_exec, Escalation::ExecEscalation) + when(
        new.may_exec && old.may_exec && commands.len() > 0,
        Escalation::NewExecWhitelist(commands),
    ) + when(ipc.len() > 0, Escalation::NewIpcEndpoints(ipc)) + when(
        new.children > old.children,
        Escalation::ChildProcessEscalation(old.children, new.children),
    )
}

/// The contents of a list of violations.
pub open spec fn escalation_views(v: Seq<EscalationViolation>) -> Seq<Escalation> {
    Seq::new(v.len(), |i: int| v[i]@)
}

fn contains_text(list: &Vec<String>, item: &str) -> (b: bool)
    ensures
        b == texts(list@).contains(item@),
{
    let mut i: usize = 0;
    while i < list.len()
        invariant
            i <= list@.len(),
            forall|k: int| 0 <= k < i ==> (#[trigger] list@[k])@ != item@,
        decreases list@.len() - i,
    {
        if str_eq(list[i].as_str(), item) {
            assert(texts(list@)[i as int] == item@);
            return true;
        }
        i += 1;
    }
    assert(!texts(list@).contains(item@)) by {
        if texts(list@).contains(item@) {
            let k = choose|k: int| 0 <= k < list@.len() && texts(list@)[k] == item@;
            assert(list@[k]@ == item@);
        }
    }
    false
}

fn find_new(asked: &Vec<String>, granted: &Vec<String>) -> (r: Vec<String>)
    ensures
        texts(r@) == new_entries(texts(asked@), texts(granted@)),
{
    let mut r: Vec<String> = Vec::new();
    let mut i: usize = 0;
    let ghost a = texts(asked@);
    let ghost g = texts(granted@);
    proof {
        reveal(Seq::filter);
        assert(texts(r@) =~= new_entries(a.take(0), g));
    }
    while i < asked.len()
        invariant
            i <= asked@.len(),
            a == texts(asked@),
            g == texts(granted@),
            texts(r@) == new_entries(a.take(i as int), g),
        decreases asked@.len() - i,
    {
        proof {
            reveal(Seq::filter);
            assert(a.take(i + 1).drop_last() =~= a.take(i as int));
            assert(a.take(i + 1).last() == asked@[i as int]@);
        }
        if !contains_text(granted, asked[i].as_str()) {
            let e = asked[i].clone();
            proof {
                lemma_texts_push(r@, e);
            }
            r.push(e);
        }
        i += 1;
    }
    assert(a.take(asked@.len() as int) =~= a);
    r
}

/// Appends a violation where the condition holds.
fn push_when(out: &mut Vec<EscalationViolation>, condition: bool, v: EscalationViolation)
    ensures
        escalation_views(final(out)@) == escalation_views(old(out)@) + when(condition, v@),
{
    if condition {
        out.push(v);
    }
    assert(escalation_views(out@) =~= escalation_views(old(out)@) + when(condition, v@));
}

/// All the ways in which `new` asks for more than `old`.
pub fn detect_escalations(old: &Capabilities, new: &Capabilities) -> (r: Vec<EscalationViolation>)
    ensures
        escalation_views(r@) == escalations(old@, new@),
{
    let mut r: Vec<EscalationViolation> = Vec::new();
    assert(escalation_views(r@) =~= Seq::empty());
    let reads = find_new(&new.filesystem.read, &old.filesystem.read);
    assert(texts(reads@).len() == reads@.len());
    push_when(&mut r, reads.len() > 0, EscalationViolation::NewFilesystemRead(reads));
    let ghost g1 = escalation_views(r@);
    let writes = find_new(&new.filesystem.write, &old.filesystem.write);
    assert(texts(writes@).len() == writes@.len());
    push_when(&mut r, writes.len() > 0, EscalationViolation::NewFilesystemWrite(writes));
    push_when(
        &mut r,
        new.network.allowed && !old.network.allowed,
        EscalationViolation::NetworkEscalation,
    );
    let hosts = find_new(&new.network.whitelist, &old.network.whitelist);
    assert(texts(hosts@).len() == hosts@.len());
    push_when(
        &mut r,
        new.network.allowed && old.network.allowed && hosts.len() > 0,
        EscalationViolation::NewNetworkWhitelist(hosts),
    );
    push_when(
        &mut r,
        new.exec_caps.allowed && !old.exec_caps.allowed,
        EscalationViolation::ExecEscalation,
    );
    let commands = find_new(&new.exec_caps.whitelist, &old.exec_caps.whitelist);
    assert(texts(commands@).len() == commands@.len());
    push_when(
        &mut r,
        new.exec_caps.allowed && old.exec_caps.allowed && commands.len() > 0,
        EscalationViolation::NewExecWhitelist(commands),
    );
    let ipc = find_new(&new.ipc, &old.ipc);
    assert(texts(ipc@).len() == ipc@.len());
    push_when(&mut r, ipc.len() > 0, EscalationViolation::NewIpcEndpoints(ipc));
    push_when(
        &mut r,
        new.max_child_processes > old.max_child_processes,
        EscalationViolation::ChildProcessEscalation {
            old: old.max_child_processes,
            new: new.max_child_processes,
        },
    );
    assert(g1 =~= when(
        new_entries(new@.read, old@.read).len() > 0,
        Escalation::NewFilesystemRead(new_entries(new@.read, old@.read)),
    ));
    r
}

/// The permissions of a peripheral that declares none of its own.
pub open spec fn peripheral_permissions(base: Seq<char>) -> CapsView {
    let state = joined(base, "state"@);
    CapsView {
        read: seq![state, joined(base, "constitution"@)],
        write: seq![joined(state, "memory.json"@), joined(state, "context.json"@)],
        ipc: seq!["reloopy.sock"@],
        ..no_permissions()
    }
}

/// The permissions that are written for a new peripheral version.
pub fn default_peripheral_capabilities(base_dir: &str) -> (c: Capabilities)
    ensures
        c@ == peripheral_permissions(base_dir@),
{
    let state_dir = join(base_dir, "state");
    let memory_file = join(state_dir.as_str(), "memory.json");
    let context_file = join(state_dir.as_str(), "context.json");
    let mut c = Capabilities::default();
    proof {
        assert(c@.read.len() == 0 && c@.write.len() == 0 && c@.ipc.len() == 0);
    }
    c.filesystem.read.push(state_dir);
    c.filesystem.read.push(join(base_dir, "constitution"));
    c.filesystem.write.push(memory_file);
    c.filesystem.write.push(context_file);
    c.ipc.push("reloopy.sock".to_owned());
    proof {
        let p = peripheral_permissions(base_dir@);
        assert(c@.read =~= p.read);
        assert(c@.write =~= p.write);
        assert(c@.ipc =~= p.ipc);
    }
    c
}

/// Knows where the capabilities of each version are kept.
pub struct CapabilityManager {
    base_dir: String,
}

impl View for CapabilityManager {
    type V = Seq<char>;

    /// The directory of the peripheral versions.
    closed spec fn view(&self) -> Seq<char> {
        self.base_dir@
    }
}

impl CapabilityManager {
    pub fn new(base_dir: &str) -> (m: CapabilityManager)
        ensures
            m@ == joined(base_dir@, "peripheral"@),
    {
        CapabilityManager { base_dir: join(base_dir, "peripheral") }
    }

    /// The file that declares a version's capabilities.
    pub fn capabilities_path(&self, version: &str) -> (p: String)
        ensures
            p@ == joined(joined(self@, version@), "capabilities.json"@),
    {
        join(join(self.base_dir.as_str(), version).as_str(), "capabilities.json")
    }

    /// A version's capabilities, given what its file declares: without a file
    /// everything is denied.
    pub fn load_capabilities(
        &self,
        declared: Option<Result<Capabilities, String>>,
    ) -> (r: Result<Capabilities, String>)
        ensures
            declared is None ==> r is Ok && r->Ok_0@ == no_permissions(),
            declared is Some ==> r == declared->Some_0,
    {
        match declared {
            None => Ok(Capabilities::default()),
            Some(r) => r,
        }
    }

    /// Compares the capabilities of two versions, as they were loaded.
    pub fn check_escalation(
        &self,
        old_caps: Result<Capabilities, String>,
        new_caps: Result<Capabilities, String>,
    ) -> (r: Result<Vec<EscalationViolation>, String>)
        ensures
            old_caps is Err ==> r is Err && r->Err_0 == old_caps->Err_0,
            old_caps is Ok && new_caps is Err ==> r is Err && r->Err_0 == new_caps->Err_0,
            old_caps is Ok && new_caps is Ok ==> r is Ok && escalation_views(r->Ok_0@)
                == escalations(old_caps->Ok_0@, new_caps->Ok_0@),
    {
        let a = match old_caps {
            Ok(c) => c,
            Err(e) => {
                return Err(e);
            },
        };
        let b = match new_caps {
            Ok(c) => c,
            Err(e) => {
                return Err(e);
            },
        };
        Ok(detect_escalations(&a, &b))
    }
}

/// Everything in `a` is in `b`.
pub open spec fn subset(a: Seq<Seq<char>>, b: Seq<Seq<char>>) -> bool {
    forall|i: int| 0 <= i < a.len() ==> b.contains(#[trigger] a[i])
}

/// Every permission of `new` is one of `old`.
pub open spec fn within(new: CapsView, old: CapsView) -> bool {
    &&& subset(new.read, old.read)
    &&& subset(new.write, old.write)
    &&& new.network ==> old.network && subset(new.hosts, old.hosts)
    &&& new.may_exec ==> old.may_exec && subset(new.commands, old.commands)
    &&& subset(new.ipc, old.ipc)
    &&& new.children <= old.children
}

proof fn lemma_no_new_entries(asked: Seq<Seq<char>>, granted: Seq<Seq<char>>)
    ensures
        new_entries(asked, granted).len() == 0 <==> subset(asked, granted),
    decreases asked.len(),
{
    reveal(Seq::filter);
    if asked.len() > 0 {
        let d = asked.drop_last();
        lemma_no_new_entries(d, granted);
        if subset(asked, granted) {
            assert(granted.contains(asked[asked.len() - 1]));
            assert forall|i: int| 0 <= i < d.len() implies granted.contains(#[trigger] d[i]) by {
                assert(d[i] == asked[i]);
            }
        }
        if new_entries(asked, granted).len() == 0 {
            assert forall|i: int| 0 <= i < asked.len() implies granted.contains(
                #[trigger] asked[i],
            ) by {
                if i < d.len() {
                    assert(d[i] == asked[i]);
                }
            }
        }
    }
}

proof fn lemma_all_empty(
    a: Seq<Escalation>,
    b: Seq<Escalation>,
    c: Seq<Escalation>,
    d: Seq<Escalation>,
)
    ensures
        (a + b + c + d).len() == a.len() + b.len() + c.len() + d.len(),
{
}

proof fn lemma_escalation_count(old: CapsView, new: CapsView)
    ensures
        escalations(old, new).len() == 0 <==> {
            &&& new_entries(new.read, old.read).len() == 0
            &&& new_entries(new.write, old.write).len() == 0
            &&& !(new.network && !old.network)
            &&& !(new.network && old.network && new_entries(new.hosts, old.hosts).len() > 0)
            &&& !(new.may_exec && !old.may_exec)
            &&& !(new.may_exec && old.may_exec && new_entries(new.commands, old.commands).len()
                > 0)
            &&& new_entries(new.ipc, old.ipc).len() == 0
            &&& !(new.children > old.children)
        },
{
    let reads = new_entries(new.read, old.read);
    let writes = new_entries(new.write, old.write);
    let hosts = new_entries(new.hosts, old.hosts);
    let commands = new_entries(new.commands, old.commands);
    let ipc = new_entries(new.ipc, old.ipc);
    let a = when(reads.len() > 0, Escalation::NewFilesystemRead(reads));
    let b = when(writes.len() > 0, Escalation::NewFilesystemWrite(writes));
    let c = when(new.network && !old.network, Escalation::NetworkEscalation);
    let d = when(
        new.network && old.network && hosts.len() > 0,
        Escalation::NewNetworkWhitelist(hosts),
    );
    let e = when(new.may_exec && !old.may_exec, Escalation::ExecEscalation);
    let f = when(
        new.may_exec && old.may_exec && commands.len() > 0,
        Escalation::NewExecWhitelist(commands),
    );
    let g = when(ipc.len() > 0, Escalation::NewIpcEndpoints(ipc));
    let h = when(
        new.children > old.children,
        Escalation::ChildProcessEscalation(old.children, new.children),
    );
    lemma_all_empty(a, b, c, d);
    lemma_all_empty(a + b + c + d, e, f, g);
    assert(escalations(old, new) == a + b + c + d + e + f + g + h);
}

/// Shrink-only: a new version passes without a violation exactly when each of
/// its permissions was already one of the old version's.
pub proof fn law_shrink_only(old: CapsView, new: CapsView)
    ensures
        escalations(old, new).len() == 0 <==> within(new, old),
{
    lemma_escalation_count(old, new);
    lemma_no_new_entries(new.read, old.read);
    lemma_no_new_entries(new.write, old.write);
    lemma_no_new_entries(new.hosts, old.hosts);
    lemma_no_new_entries(new.commands, old.commands);
    lemma_no_new_entries(new.ipc, old.ipc);
}

/// Default deny: from a version without declared permissions, every permission
/// at all is an escalation, and declaring none is never one.
pub proof fn law_default_deny(other: CapsView)
    ensures
        escalations(other, no_permissions()).len() == 0,
        escalations(no_permissions(), other).len() == 0 <==> other.read.len() == 0
            && other.write.len() == 0 && !other.network && !other.may_exec && other.ipc.len() == 0
            && other.children == 0,
{
    law_shrink_only(other, no_permissions());
    law_shrink_only(no_permissions(), other);
    if within(other, no_permissions()) {
        if other.read.len() > 0 {
            assert(no_permissions().read.contains(other.read[0]));
        }
        if other.write.len() > 0 {
            assert(no_permissions().write.contains(other.write[0]));
        }
        if other.ipc.len() > 0 {
            assert(no_permissions().ipc.contains(other.ipc[0]));
        }
    }
}

/// A version that asks for what its predecessor had is no escalation, and
/// shrinking step by step never ends in more than the start had.
pub proof fn law_shrinking_is_an_order(a: CapsView, b: CapsView, c: CapsView)
    ensures
        within(a, a),
        within(a, b) && within(b, c) ==> within(a, c),
{
    assert forall|s: Seq<Seq<char>>| subset(s, s) by {
        assert forall|i: int| 0 <= i < s.len() implies s.contains(#[trigger] s[i]) by {}
    }
    if within(a, b) && within(b, c) {
        lemma_subset_transitive(a.read, b.read, c.read);
        lemma_subset_transitive(a.write, b.write, c.write);
        lemma_subset_transitive(a.ipc, b.ipc, c.ipc);
        if a.network {
            lemma_subset_transitive(a.hosts, b.hosts, c.hosts);
        }
        if a.may_exec {
            lemma_subset_transitive(a.commands, b.commands, c.commands);
        }
    }
}

proof fn lemma_subset_transitive(a: Seq<Seq<char>>, b: Seq<Seq<char>>, c: Seq<Seq<char>>)
    requires
        subset(a, b),
        subset(b, c),
    ensures
        subset(a, c),
{
    assert forall|i: int| 0 <= i < a.len() implies c.contains(#[trigger] a[i]) by {
        let k = choose|k: int| 0 <= k < b.len() && b[k] == a[i];
        assert(c.contains(b[k]));
    }
}

proof fn lemma_joined_contains(a: Seq<Escalation>, b: Seq<Escalation>, x: Escalation)
    ensures
        (a + b).contains(x) <==> a.contains(x) || b.contains(x),
{
    if a.contains(x) {
        let i = a.index_of(x);
        assert((a + b)[i] == x);
    }
    if b.contains(x) {
        let i = b.index_of(x);
        assert((a + b)[a.len() + i] == x);
    }
    if (a + b).contains(x) {
        let i = (a + b).index_of(x);
        if i < a.len() {
            assert(a[i] == x);
        } else {
            assert(b[i - a.len()] == x);
        }
    }
}

proof fn lemma_when_contains(condition: bool, v: Escalation, x: Escalation)
    ensures
        (when(condition, v)).contains(x) <==> condition && x == v,
{
    if condition {
        assert(when(condition, v)[0] == v);
    }
}

/// What is new are the entries that are asked for and not granted.
pub proof fn law_new_entries_are_those_not_granted(
    asked: Seq<Seq<char>>,
    granted: Seq<Seq<char>>,
    e: Seq<char>,
)
    ensures
        new_entries(asked, granted).contains(e) <==> asked.contains(e) && !granted.contains(e),
    decreases asked.len(),
{
    reveal(Seq::filter);
    if asked.len() > 0 {
        let d = asked.drop_last();
        law_new_entries_are_those_not_granted(d, granted, e);
        assert(d.push(asked.last()) =~= asked);
        vstd::seq_lib::lemma_seq_contains_after_push(d, asked.last(), e);
        if !granted.contains(asked.last()) {
            vstd::seq_lib::lemma_seq_contains_after_push(
                new_entries(d, granted),
                asked.last(),
                e,
            );
        }
    }
}

/// Each way of asking for more is named with what is new in it: paths, network
/// access or hosts, commands or the right to run any, endpoints, and processes.
pub proof fn law_escalations_name_what_is_new(old: CapsView, new: CapsView, x: Escalation)
    ensures
        escalations(old, new).contains(x) <==> match x {
            Escalation::NewFilesystemRead(v) => v == new_entries(new.read, old.read) && v.len() > 0,
            Escalation::NewFilesystemWrite(v) => v == new_entries(new.write, old.write) && v.len()
                > 0,
            Escalation::NetworkEscalation => new.network && !old.network,
            Escalation::NewNetworkWhitelist(v) => new.network && old.network && v == new_entries(
                new.hosts,
                old.hosts,
            ) && v.len() > 0,
            Escalation::ExecEscalation => new.may_exec && !old.may_exec,
            Escalation::NewExecWhitelist(v) => new.may_exec && old.may_exec && v == new_entries(
                new.commands,
                old.commands,
            ) && v.len() > 0,
            Escalation::NewIpcEndpoints(v) => v == new_entries(new.ipc, old.ipc) && v.len() > 0,
            Escalation::ChildProcessEscalation(a, b) => a == old.children && b == new.children && b
                > a,
        },
{
    let reads = new_entries(new.read, old.read);
    let writes = new_entries(new.write, old.write);
    let hosts = new_entries(new.hosts, old.hosts);
    let commands = new_entries(new.commands, old.commands);
    let ipc = new_entries(new.ipc, old.ipc);
    let c1 = reads.len() > 0;
    let c2 = writes.len() > 0;
    let c3 = new.network && !old.network;
    let c4 = new.network && old.network && hosts.len() > 0;
    let c5 = new.may_exec && !old.may_exec;
    let c6 = new.may_exec && old.may_exec && commands.len() > 0;
    let c7 = ipc.len() > 0;
    let c8 = new.children > old.children;
    let v1 = Escalation::NewFilesystemRead(reads);
    let v2 = Escalation::NewFilesystemWrite(writes);
    let v3 = Escalation::NetworkEscalation;
    let v4 = Escalation::NewNetworkWhitelist(hosts);
    let v5 = Escalation::ExecEscalation;
    let v6 = Escalation::NewExecWhitelist(commands);
    let v7 = Escalation::NewIpcEndpoints(ipc);
    let v8 = Escalation::ChildProcessEscalation(old.children, new.children);
    lemma_when_contains(c1, v1, x);
    lemma_when_contains(c2, v2, x);
    lemma_when_contains(c3, v3, x);
    lemma_when_contains(c4, v4, x);
    lemma_when_contains(c5, v5, x);
    lemma_when_contains(c6, v6, x);
    lemma_when_contains(c7, v7, x);
    lemma_when_contains(c8, v8, x);
    let s2 = when(c1, v1) + when(c2, v2);
    let s3 = s2 + when(c3, v3);
    let s4 = s3 + when(c4, v4);
    let s5 = s4 + when(c5, v5);
    let s6 = s5 + when(c6, v6);
    let s7 = s6 + when(c7, v7);
    lemma_joined_contains(when(c1, v1), when(c2, v2), x);
    lemma_joined_contains(s2, when(c3, v3), x);
    lemma_joined_contains(s3, when(c4, v4), x);
    lemma_joined_contains(s4, when(c5, v5), x);
    lemma_joined_contains(s5, when(c6, v6), x);
    lemma_joined_contains(s6, when(c7, v7), x);
    lemma_joined_contains(s7, when(c8, v8), x);
    assert(escalations(old, new) == s7 + when(c8, v8));
}

/// The description of an escalation holds what is new, and for processes both
/// limits.
pub proof fn law_descriptions_hold_what_is_new(e: Escalation)
    ensures
        match e {
            Escalation::NewFilesystemRead(v) => e.description() == "New filesystem read paths: "@
                + debug_list(v),
            Escalation::NewFilesystemWrite(v) => e.description() == "New filesystem write paths: "@
                + debug_list(v),
            Escalation::NewNetworkWhitelist(v) => e.description()
                == "New network whitelist entries: "@ + debug_list(v),
            Escalation::NewExecWhitelist(v) => e.description() == "New exec whitelist entries: "@
                + debug_list(v),
            Escalation::NewIpcEndpoints(v) => e.description() == "New IPC endpoints: "@
                + debug_list(v),
            Escalation::NetworkEscalation => e.description()
                == "Network access escalation (was denied)"@,
            Escalation::ExecEscalation => e.description()
                == "Exec access escalation (was denied)"@,
            Escalation::ChildProcessEscalation(a, b) => e.description()
                == "Child process limit escalation: "@ + dec(a as nat) + " -> "@ + dec(b as nat),
        },
{
}

/// A peripheral that declares nothing may read its state and the constitution,
/// write two files of its state and talk to the boot process. It has neither
/// network access nor may it run anything.
pub proof fn law_peripherals_may_do_little(base: Seq<char>)
    ensures
        ({
            let p = peripheral_permissions(base);
            &&& !p.network && !p.may_exec && p.children == 0
            &&& p.hosts.len() == 0 && p.commands.len() == 0
            &&& p.read.len() == 2 && p.read.contains(joined(base, "state"@)) && p.read.contains(
                joined(base, "constitution"@),
            )
            &&& p.write.len() == 2 && p.write.contains(
                joined(joined(base, "state"@), "memory.json"@),
            ) && p.write.contains(joined(joined(base, "state"@), "context.json"@))
            &&& p.ipc == seq!["reloopy.sock"@]
        }),
{
    let p = peripheral_permissions(base);
    assert(p.read[0] == joined(base, "state"@));
    assert(p.read[1] == joined(base, "constitution"@));
    assert(p.write[0] == joined(joined(base, "state"@), "memory.json"@));
    assert(p.write[1] == joined(joined(base, "state"@), "context.json"@));
}

/// Permissions are what their parts say.
pub proof fn law_permissions_are_what_they_say(c: Capabilities)
    ensures
        c@.read == texts(c.filesystem.read@),
        c@.write == texts(c.filesystem.write@),
        c@.network == c.network.allowed,
        c@.hosts == texts(c.network.whitelist@),
        c@.may_exec == c.exec_caps.allowed,
        c@.commands == texts(c.exec_caps.whitelist@),
        c@.ipc == texts(c.ipc@),
        c@.children == c.max_child_processes,
{
}

} // verus!
