//! Resource quotas: health reports are held against limits, and a peer that
//! keeps breaking hard limits is degraded.

use crate::scan::{contains_text, law_parts_are_found};
use crate::messages::HealthReport;
use crate::table::Table;
use crate::text::{dec, decimal};
use vstd::prelude::*;
use vstd::string::*;

verus! {

/// The limits that whole numbers express. The CPU limit is a floating-point
/// percentage and is applied where the reading is taken.
#[derive(Debug, Clone, Copy, PartialEq, Eq, Structural)]
pub struct ResourceLimits {
    pub max_memory_mb: u64,
    pub max_open_files: u64,
    pub max_disk_write_mb: u64,
    pub max_process_count: u32,
}

impl Default for ResourceLimits {
    fn default() -> (l: ResourceLimits)
        ensures
            l == (ResourceLimits {
                max_memory_mb: 512,
                max_open_files: 256,
                max_disk_write_mb: 100,
                max_process_count: 4,
            }),
    {
        ResourceLimits {
            max_memory_mb: 512,
            max_open_files: 256,
            max_disk_write_mb: 100,
            max_process_count: 4,
        }
    }
}

#[derive(Debug, Clone, Copy, PartialEq, Eq, Structural)]
pub enum ViolationSeverity {
    Soft,
    Hard,
}

/// A reading above one of its limits.
#[derive(Debug, Clone)]
pub struct ResourceViolation {
    pub peer: String,
    pub resource: String,
    pub current_value: String,
    pub limit_value: String,
    pub severity: ViolationSeverity,
}

/// The content of a `ResourceViolation`.
pub ghost struct Violation {
    pub peer: Seq<char>,
    pub resource: Seq<char>,
    pub current: Seq<char>,
    pub limit: Seq<char>,
    pub severity: ViolationSeverity,
}

impl View for ResourceViolation {
    type V = Violation;

    open spec fn view(&self) -> Violation {
        Violation {
            peer: self.peer@,
            resource: self.resource@,
            current: self.current_value@,
            limit: self.limit_value@,
            severity: self.severity,
        }
    }
}

impl Violation {
    /// The line that describes the violation.
    pub open spec fn description(self) -> Seq<char> {
        "["@ + (match self.severity {
            ViolationSeverity::Soft => "SOFT"@,
            ViolationSeverity::Hard => "HARD"@,
        }) + "] "@ + self.peer + ": "@ + self.resource + " = "@ + self.current + " (limit: "@
            + self.limit + ")"@
    }
}

impl ResourceViolation {
    /// The line that describes the violation.
    pub fn describe(&self) -> (s: String)
        ensures
            s@ == self@.description(),
    {
        let mut s = "[".to_owned();
        match self.severity {
            ViolationSeverity::Soft => s.append("SOFT"),
            ViolationSeverity::Hard => s.append("HARD"),
        }
        s.append("] ");
        s.append(self.peer.as_str());
        s.append(": ");
        s.append(self.resource.as_str());
        s.append(" = ");
        s.append(self.current_value.as_str());
        s.append(" (limit: ");
        s.append(self.limit_value.as_str());
        s.append(")");
        s
    }
}

/// A reading held against a hard and a soft limit, with the numbers in the
/// notation of messages.
#[derive(Debug, Clone)]
pub struct LimitReading {
    pub over_max: bool,
    pub over_soft: bool,
    pub current: String,
    pub max: String,
    pub soft: String,
}

/// The content of a `LimitReading`.
pub ghost struct Reading {
    pub over_max: bool,
    pub over_soft: bool,
    pub current: Seq<char>,
    pub max: Seq<char>,
    pub soft: Seq<char>,
}

impl View for LimitReading {
    type V = Reading;

    open spec fn view(&self) -> Reading {
        Reading {
            over_max: self.over_max,
            over_soft: self.over_soft,
            current: self.current@,
            max: self.max@,
            soft: self.soft@,
        }
    }
}

/// A number of tenths with one decimal place.
pub open spec fn tenths(n: nat) -> Seq<char> {
    dec(n / 10) + "."@ + dec(n % 10)
}

/// The soft limit, in tenths: eighty percent of the hard one.
pub open spec fn soft_limit_tenths(max: nat) -> nat {
    8 * max
}

/// A memory reading in megabytes against a limit in megabytes.
pub open spec fn memory_reading(current: nat, max: nat) -> Reading {
    Reading {
        over_max: current > max,
        over_soft: 10 * current > soft_limit_tenths(max),
        current: tenths(10 * current),
        max: tenths(10 * max),
        soft: tenths(soft_limit_tenths(max)),
    }
}

/// `whole` and a tenths digit with one decimal place.
fn write_tenths(whole: u64, tenth: u64) -> (s: String)
    requires
        tenth < 10,
    ensures
        s@ == tenths((10 * whole + tenth) as nat),
{
    let mut s = decimal(whole);
    s.append(".");
    s.append(decimal(tenth).as_str());
    assert((10 * whole + tenth) / 10 == whole && (10 * whole + tenth) % 10 == tenth);
    s
}

/// Holds a memory reading against its limit.
pub fn read_memory(memory_mb: u64, max_mb: u64) -> (r: LimitReading)
    ensures
        r@ == memory_reading(memory_mb as nat, max_mb as nat),
{
    let soft: u128 = 8 * (max_mb as u128);
    LimitReading {
        over_max: memory_mb > max_mb,
        over_soft: 10 * (memory_mb as u128) > soft,
        current: write_tenths(memory_mb, 0),
        max: write_tenths(max_mb, 0),
        soft: write_tenths((soft / 10) as u64, (soft % 10) as u64),
    }
}

/// The violation that a reading amounts to, if any.
pub open spec fn violation_of(
    peer: Seq<char>,
    resource: Seq<char>,
    r: Reading,
) -> Option<Violation> {
    if r.over_max {
        Some(
            Violation {
                peer,
                resource,
                current: r.current,
                limit: r.max,
                severity: ViolationSeverity::Hard,
            },
        )
    } else if r.over_soft {
        Some(
            Violation {
                peer,
                resource,
                current: r.current,
                limit: r.max + " (soft: "@ + r.soft + ")"@,
                severity: ViolationSeverity::Soft,
            },
        )
    } else {
        None
    }
}

/// The violation that a reading amounts to, if any.
pub fn check_limit(peer: &str, resource: &str, reading: &LimitReading) -> (r: Option<
    ResourceViolation,
>)
    ensures
        (match violation_of(peer@, resource@, reading@) {
            Some(v) => r is Some && r->Some_0@ == v,
            None => r is None,
        }),
{
    if reading.over_max {
        Some(
            ResourceViolation {
                peer: peer.to_owned(),
                resource: resource.to_owned(),
                current_value: reading.current.clone(),
                limit_value: reading.max.clone(),
                severity: ViolationSeverity::Hard,
            },
        )
    } else if reading.over_soft {
        let mut limit = reading.max.clone();
        limit.append(" (soft: ");
        limit.append(reading.soft.as_str());
        limit.append(")");
        Some(
            ResourceViolation {
                peer: peer.to_owned(),
                resource: resource.to_owned(),
                current_value: reading.current.clone(),
                limit_value: limit,
                severity: ViolationSeverity::Soft,
            },
        )
    } else {
        None
    }
}

/// Hard violations in a row after which a peer is degraded.
pub const HARD_VIOLATION_THRESHOLD: u32 = 3;

/// Holds peers to their limits.
pub struct ResourceMonitor {
    limits: ResourceLimits,
    probation_limits: ResourceLimits,
    consecutive_violations: Table<u32>,
}

/// The mathematical state of a `ResourceMonitor`.
pub ghost struct MonitorState {
    pub limits: ResourceLimits,
    /// Hard violations in a row, for the peers that have any.
    pub strikes: Map<Seq<char>, u32>,
}

impl View for ResourceMonitor {
    type V = MonitorState;

    closed spec fn view(&self) -> MonitorState {
        MonitorState { limits: self.limits, strikes: self.consecutive_violations@ }
    }
}

/// The limits during probation.
pub open spec fn halved(l: ResourceLimits) -> ResourceLimits {
    ResourceLimits {
        max_memory_mb: l.max_memory_mb / 2,
        max_open_files: l.max_open_files / 2,
        max_disk_write_mb: l.max_disk_write_mb / 2,
        max_process_count: (if l.max_process_count < 1 {
            1u32
        } else {
            l.max_process_count
        }) / 2,
    }
}

/// The violations that a health report amounts to: memory first, then CPU.
pub open spec fn health_violations(
    peer: Seq<char>,
    memory_bytes: nat,
    max_memory_mb: nat,
    cpu: Reading,
) -> Seq<Violation> {
    let memory = violation_of(
        peer,
        "memory_mb"@,
        memory_reading(memory_bytes / 1048576, max_memory_mb),
    );
    let cpu = violation_of(peer, "cpu_percent"@, cpu);
    (match memory {
        Some(v) => seq![v],
        None => Seq::empty(),
    }) + (match cpu {
        Some(v) => seq![v],
        None => Seq::empty(),
    })
}

/// Whether a hard limit was broken.
pub open spec fn any_hard(v: Seq<Violation>) -> bool {
    exists|i: int| 0 <= i < v.len() && (#[trigger] v[i]).severity is Hard
}

impl MonitorState {
    pub open spec fn strikes_of(self, peer: Seq<char>) -> int {
        if self.strikes.contains_key(peer) {
            self.strikes[peer] as int
        } else {
            0
        }
    }

    /// The state after a report with the given violations.
    pub open spec fn after_report(self, peer: Seq<char>, v: Seq<Violation>) -> MonitorState {
        MonitorState {
            strikes: if any_hard(v) {
                self.strikes.insert(peer, (self.strikes_of(peer) + 1) as u32)
            } else {
                self.strikes.remove(peer)
            },
            ..self
        }
    }

    /// The state after a peer's violations are forgotten.
    pub open spec fn without(self, peer: Seq<char>) -> MonitorState {
        MonitorState { strikes: self.strikes.remove(peer), ..self }
    }

    /// No peer has to be degraded.
    pub open spec fn settled(self) -> bool {
        forall|p: Seq<char>| !#[trigger] self.degrades(p)
    }

    /// Whether a peer has to be degraded.
    pub open spec fn degrades(self, peer: Seq<char>) -> bool {
        self.strikes_of(peer) >= HARD_VIOLATION_THRESHOLD
    }
}

/// Where only one peer has to be degraded, forgetting it settles the matter.
pub proof fn lemma_forgotten(s: MonitorState, peer: Seq<char>)
    requires
        forall|p: Seq<char>| p != peer ==> !#[trigger] s.degrades(p),
    ensures
        (MonitorState { strikes: s.strikes.remove(peer), ..s }).settled(),
{
    let after = MonitorState { strikes: s.strikes.remove(peer), ..s };
    assert forall|p: Seq<char>| !#[trigger] after.degrades(p) by {
        if p != peer {
            assert(!s.degrades(p));
        }
    }
}

/// The contents of a list of violations.
pub open spec fn violation_views(v: Seq<ResourceViolation>) -> Seq<Violation> {
    Seq::new(v.len(), |i: int| v[i]@)
}

impl ResourceMonitor {
    pub closed spec fn wf(self) -> bool {
        &&& self.consecutive_violations.wf()
        &&& self.probation_limits == halved(self.limits)
    }

    pub fn new(limits: ResourceLimits) -> (m: ResourceMonitor)
        ensures
            m.wf(),
            m@ == (MonitorState { limits, strikes: Map::empty() }),
    {
        let process_count: u32 = if limits.max_process_count < 1 {
            1
        } else {
            limits.max_process_count
        };
        let probation_limits = ResourceLimits {
            max_memory_mb: limits.max_memory_mb / 2,
            max_open_files: limits.max_open_files / 2,
            max_disk_write_mb: limits.max_disk_write_mb / 2,
            max_process_count: process_count / 2,
        };
        ResourceMonitor { limits, probation_limits, consecutive_violations: Table::new() }
    }

    /// Holds a health report against the limits, which are halved on
    /// probation, and counts hard violations in a row.
    pub fn check_health(
        &mut self,
        peer: &str,
        health: &HealthReport,
        cpu: &LimitReading,
        on_probation: bool,
    ) -> (r: Vec<ResourceViolation>)
        requires
            old(self).wf(),
            old(self)@.strikes_of(peer@) < u32::MAX,
        ensures
            final(self).wf(),
            violation_views(r@) == health_violations(
                peer@,
                health.memory_bytes as nat,
                (if on_probation {
                    halved(old(self)@.limits)
                } else {
                    old(self)@.limits
                }).max_memory_mb as nat,
                cpu@,
            ),
            final(self)@ == old(self)@.after_report(peer@, violation_views(r@)),
    {
        let max_memory_mb: u64 = if on_probation {
            self.probation_limits.max_memory_mb
        } else {
            self.limits.max_memory_mb
        };
        let mut r: Vec<ResourceViolation> = Vec::new();
        let mut hard = false;
        let memory = check_limit(
            peer,
            "memory_mb",
            &read_memory(health.memory_bytes / 1048576, max_memory_mb),
        );
        match memory {
            Some(v) => {
                if v.severity == ViolationSeverity::Hard {
                    hard = true;
                }
                r.push(v);
            },
            None => {},
        }
        let load = check_limit(peer, "cpu_percent", cpu);
        match load {
            Some(v) => {
                if v.severity == ViolationSeverity::Hard {
                    hard = true;
                }
                r.push(v);
            },
            None => {},
        }
        proof {
            let vs = health_violations(
                peer@,
                health.memory_bytes as nat,
                max_memory_mb as nat,
                cpu@,
            );
            assert(violation_views(r@) =~= vs);
            if hard {
                if memory is Some && memory->Some_0.severity is Hard {
                    assert(vs[0].severity is Hard);
                } else {
                    assert(vs[vs.len() - 1].severity is Hard);
                }
            }
            assert(any_hard(vs) == hard);
        }
        if hard {
            let count: u32 = match self.consecutive_violations.get(peer) {
                Some(n) => *n,
                None => 0,
            };
            self.consecutive_violations.insert(peer, count + 1);
        } else {
            let _ = self.consecutive_violations.remove(peer);
        }
        r
    }

    /// Whether a peer has broken hard limits often enough in a row.
    pub fn should_degrade(&self, peer: &str) -> (b: bool)
        requires
            self.wf(),
        ensures
            b == self@.degrades(peer@),
    {
        match self.consecutive_violations.get(peer) {
            Some(n) => *n >= HARD_VIOLATION_THRESHOLD,
            None => false,
        }
    }

    pub fn reset_violations(&mut self, peer: &str)
        requires
            old(self).wf(),
        ensures
            final(self).wf(),
            final(self)@ == old(self)@.without(peer@),
    {
        let _ = self.consecutive_violations.remove(peer);
    }

    pub fn remove_peer(&mut self, peer: &str)
        requires
            old(self).wf(),
        ensures
            final(self).wf(),
            final(self)@ == old(self)@.without(peer@),
    {
        let _ = self.consecutive_violations.remove(peer);
    }

    pub fn limits(&self) -> (l: &ResourceLimits)
        ensures
            *l == self@.limits,
    {
        &self.limits
    }
}

/// Probation never loosens a limit.
pub proof fn law_probation_is_tighter(l: ResourceLimits)
    ensures
        halved(l).max_memory_mb <= l.max_memory_mb,
        halved(l).max_open_files <= l.max_open_files,
        halved(l).max_disk_write_mb <= l.max_disk_write_mb,
        halved(l).max_process_count <= l.max_process_count,
        2 * halved(l).max_memory_mb <= l.max_memory_mb,
{
}

/// A report without a hard violation clears the peer's record.
pub proof fn law_clean_report_clears(s: MonitorState, peer: Seq<char>, v: Seq<Violation>)
    requires
        !any_hard(v),
    ensures
        s.after_report(peer, v).strikes_of(peer) == 0,
        !s.after_report(peer, v).degrades(peer),
{
}

/// What happens to a monitor.
pub ghost enum MonitorEvent {
    /// A health report of a peer amounted to these violations.
    Reported { peer: Seq<char>, violations: Seq<Violation> },
    /// A peer's violations were reset, or the peer was removed.
    Forgotten { peer: Seq<char> },
}

impl MonitorState {
    /// The state after an event.
    pub open spec fn after_event(self, e: MonitorEvent) -> MonitorState {
        match e {
            MonitorEvent::Reported { peer, violations } => self.after_report(peer, violations),
            MonitorEvent::Forgotten { peer } => self.without(peer),
        }
    }

    /// The state after events, one after the other.
    pub open spec fn after_events(self, events: Seq<MonitorEvent>) -> MonitorState
        decreases events.len(),
    {
        if events.len() == 0 {
            self
        } else {
            self.after_events(events.drop_last()).after_event(events.last())
        }
    }
}

/// What a peer's reports amounted to since it was last forgotten, in order.
pub open spec fn reports_of(peer: Seq<char>, events: Seq<MonitorEvent>) -> Seq<Seq<Violation>>
    decreases events.len(),
{
    if events.len() == 0 {
        Seq::empty()
    } else {
        let before = reports_of(peer, events.drop_last());
        match events.last() {
            MonitorEvent::Reported { peer: p, violations } if p == peer => before.push(violations),
            MonitorEvent::Forgotten { peer: p } if p == peer => Seq::empty(),
            _ => before,
        }
    }
}

/// At no time came so many reports of a peer in a row that they cannot be counted.
pub open spec fn countable(peer: Seq<char>, events: Seq<MonitorEvent>) -> bool {
    forall|n: int|
        0 <= n <= events.len() ==> #[trigger] reports_of(peer, events.take(n)).len() <= u32::MAX
}

/// Whether at least `n` reports came and each of the last `n` holds a hard violation.
pub open spec fn last_are_hard(reports: Seq<Seq<Violation>>, n: int) -> bool {
    &&& reports.len() >= n
    &&& forall|i: int| reports.len() - n <= i < reports.len() ==> any_hard(#[trigger] reports[i])
}

/// The strikes of a peer are its last reports with a hard violation in a row.
proof fn lemma_strikes(s: MonitorState, peer: Seq<char>, events: Seq<MonitorEvent>, n: int)
    requires
        s.strikes_of(peer) == 0,
        countable(peer, events),
        0 <= n,
    ensures
        s.after_events(events).strikes_of(peer) <= reports_of(peer, events).len(),
        s.after_events(events).strikes_of(peer) >= n <==> last_are_hard(
            reports_of(peer, events),
            n,
        ),
    decreases events.len(),
{
    let r = reports_of(peer, events);
    if events.len() > 0 {
        let d = events.drop_last();
        let before = reports_of(peer, d);
        assert(events.take(events.len() as int) =~= events);
        assert forall|k: int| 0 <= k <= d.len() implies #[trigger] reports_of(
            peer,
            d.take(k),
        ).len() <= u32::MAX by {
            assert(d.take(k) =~= events.take(k));
        }
        lemma_strikes(s, peer, d, n);
        if n > 0 {
            lemma_strikes(s, peer, d, n - 1);
        }
        match events.last() {
            MonitorEvent::Reported { peer: p, violations } if p == peer => {
                assert(r.last() == violations);
                if n > 0 {
                    if last_are_hard(r, n) {
                        assert(any_hard(r[r.len() - 1]));
                        assert forall|i: int|
                            before.len() - (n - 1) <= i < before.len() implies any_hard(
                            #[trigger] before[i],
                        ) by {
                            assert(r[i] == before[i]);
                        }
                    }
                    if any_hard(violations) && last_are_hard(before, n - 1) {
                        assert forall|i: int| r.len() - n <= i < r.len() implies any_hard(
                            #[trigger] r[i],
                        ) by {
                            if i < before.len() {
                                assert(r[i] == before[i]);
                            }
                        }
                    }
                }
            },
            _ => {},
        }
    }
}

/// A peer has to be degraded exactly where, since it was last forgotten, at
/// least three reports of it came and each of the last three holds a hard
/// violation. Whatever happens to other peers makes no difference.
pub proof fn law_degrades_after_consecutive_hard_violations(
    s: MonitorState,
    peer: Seq<char>,
    events: Seq<MonitorEvent>,
)
    requires
        s.strikes_of(peer) == 0,
        countable(peer, events),
    ensures
        s.after_events(events).degrades(peer) <==> last_are_hard(
            reports_of(peer, events),
            HARD_VIOLATION_THRESHOLD as int,
        ),
{
    lemma_strikes(s, peer, events, HARD_VIOLATION_THRESHOLD as int);
}

/// A reading over the hard limit is a hard violation, one over the soft limit
/// alone a soft one, and any other is none. The violation names the peer, the
/// resource and the readings.
pub proof fn law_readings_over_a_limit_are_violations(
    peer: Seq<char>,
    resource: Seq<char>,
    r: Reading,
)
    ensures
        violation_of(peer, resource, r) is Some <==> r.over_max || r.over_soft,
        violation_of(peer, resource, r) is Some ==> {
            let v = violation_of(peer, resource, r)->0;
            &&& v.severity is Hard <==> r.over_max
            &&& v.peer == peer
            &&& v.resource == resource
            &&& v.current == r.current
            &&& r.max.is_prefix_of(v.limit)
            &&& r.over_max ==> v.limit == r.max
            &&& !r.over_max ==> contains_text(v.limit, r.soft)
        },
{
    if r.over_soft && !r.over_max {
        let v = violation_of(peer, resource, r)->0;
        assert(r.max =~= v.limit.subrange(0, r.max.len() as int));
        assert(v.limit =~= (r.max + " (soft: "@) + r.soft + ")"@);
        law_parts_are_found(r.max + " (soft: "@, r.soft, ")"@, v.limit);
    } else if r.over_max {
        assert(r.max =~= r.max.subrange(0, r.max.len() as int));
    }
}

/// Memory is over its limit where it is more, and over the soft one from four
/// fifths on.
pub proof fn law_memory_is_held_against_its_limit(current: nat, max: nat)
    ensures
        memory_reading(current, max).over_max <==> current > max,
        memory_reading(current, max).over_soft <==> 5 * current > 4 * max,
        current > max ==> memory_reading(current, max).over_soft,
        memory_reading(current, max).current == dec(current) + "."@ + dec(0),
        memory_reading(current, max).max == dec(max) + "."@ + dec(0),
{
    assert((10 * current) as nat / 10 == current);
    assert((10 * current) as nat % 10 == 0);
    assert((10 * max) as nat / 10 == max);
    assert((10 * max) as nat % 10 == 0);
}

/// A health report breaks a hard limit exactly where its memory in megabytes or
/// its CPU reading does, and it has at most one violation for each.
pub proof fn law_health_reports_are_held_against_the_limits(
    peer: Seq<char>,
    bytes: nat,
    max: nat,
    cpu: Reading,
)
    ensures
        any_hard(health_violations(peer, bytes, max, cpu)) <==> bytes / 1048576 > max
            || cpu.over_max,
        health_violations(peer, bytes, max, cpu).len() == (if 5 * (bytes / 1048576) > 4 * max
            || bytes / 1048576 > max {
            1int
        } else {
            0
        }) + (if cpu.over_max || cpu.over_soft {
            1int
        } else {
            0
        }),
        forall|i: int|
            0 <= i < health_violations(peer, bytes, max, cpu).len() ==> (
            #[trigger] health_violations(peer, bytes, max, cpu)[i]).peer == peer,
{
    let v = health_violations(peer, bytes, max, cpu);
    let memory = violation_of(peer, "memory_mb"@, memory_reading(bytes / 1048576, max));
    let c = violation_of(peer, "cpu_percent"@, cpu);
    if memory is Some {
        assert(v[0] == memory->0);
    }
    if c is Some {
        assert(v[v.len() - 1] == c->0);
    }
}

/// A report with a hard violation is one strike more for the peer, one without
/// clears its strikes, and other peers and the limits are left alone.
pub proof fn law_hard_violations_are_counted(
    s: MonitorState,
    peer: Seq<char>,
    other: Seq<char>,
    v: Seq<Violation>,
)
    requires
        other != peer,
        s.strikes_of(peer) < u32::MAX,
    ensures
        any_hard(v) ==> s.after_report(peer, v).strikes_of(peer) == s.strikes_of(peer) + 1,
        !any_hard(v) ==> s.after_report(peer, v).strikes_of(peer) == 0,
        s.after_report(peer, v).strikes_of(other) == s.strikes_of(other),
        s.after_report(peer, v).limits == s.limits,
        s.without(peer).strikes_of(peer) == 0,
        s.without(peer).strikes_of(other) == s.strikes_of(other),
        s.degrades(peer) <==> s.strikes_of(peer) >= 3,
{
}

/// The limits of probation are half of the others.
pub proof fn law_probation_halves_the_limits(l: ResourceLimits)
    ensures
        halved(l).max_memory_mb == l.max_memory_mb / 2,
        halved(l).max_open_files == l.max_open_files / 2,
        halved(l).max_disk_write_mb == l.max_disk_write_mb / 2,
        l.max_process_count >= 1 ==> halved(l).max_process_count == l.max_process_count / 2,
        l.max_process_count == 0 ==> halved(l).max_process_count == 0,
{
}

/// The description of a violation says how bad it is and holds the peer, the
/// resource, the reading and the limit.
pub proof fn law_descriptions_say_what_is_wrong(v: Violation)
    ensures
        v.severity is Hard ==> "[HARD] "@.is_prefix_of(v.description()),
        v.severity is Soft ==> "[SOFT] "@.is_prefix_of(v.description()),
        contains_text(v.description(), v.peer + ": "@ + v.resource + " = "@ + v.current),
        contains_text(v.description(), v.limit),
{
    let d = v.description();
    let level = match v.severity {
        ViolationSeverity::Soft => "SOFT"@,
        ViolationSeverity::Hard => "HARD"@,
    };
    let head = "["@ + level + "] "@;
    let middle = v.peer + ": "@ + v.resource + " = "@ + v.current;
    let tail = " (limit: "@ + v.limit + ")"@;
    assert(d =~= head + middle + tail);
    law_parts_are_found(head, middle, tail, d);
    assert(d =~= (head + middle + " (limit: "@) + v.limit + ")"@);
    law_parts_are_found(head + middle + " (limit: "@, v.limit, ")"@, d);
    reveal_strlit("[");
    reveal_strlit("] ");
    reveal_strlit("HARD");
    reveal_strlit("SOFT");
    reveal_strlit("[HARD] ");
    reveal_strlit("[SOFT] ");
    if v.severity is Hard {
        assert("[HARD] "@ =~= d.subrange(0, 7));
    } else {
        assert("[SOFT] "@ =~= d.subrange(0, 7));
    }
}

} // verus!
