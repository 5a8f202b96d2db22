//! Lease-based heartbeats: every connected process renews its lease in time or
//! is considered dead.

use crate::messages::HealthReport;
use crate::table::Table;
use vstd::prelude::*;
use vstd::string::*;

verus! {

/// Durations of the lease system, in milliseconds.
#[derive(Debug, Clone, Copy, PartialEq, Eq, Structural)]
pub struct LeaseConfig {
    /// How long a lease is valid after renewal.
    pub lease_duration: u64,
    /// Extra time after expiry before the process is declared dead.
    pub grace_period: u64,
    /// Consecutive missed renewals before death is declared.
    pub max_renewals_missed: u32,
    /// The tighter duration during probation.
    pub probation_lease_duration: u64,
}

impl Default for LeaseConfig {
    fn default() -> (c: LeaseConfig)
        ensures
            c.lease_duration == 10_000,
            c.grace_period == 5_000,
            c.max_renewals_missed == 3,
            c.probation_lease_duration == 5_000,
    {
        LeaseConfig {
            lease_duration: 10_000,
            grace_period: 5_000,
            max_renewals_missed: 3,
            probation_lease_duration: 5_000,
        }
    }
}

/// One peer's lease. The deadline is a reading of the monotonic clock in milliseconds.
#[derive(Debug, Clone, Copy, PartialEq, Eq, Structural)]
pub struct LeaseEntry {
    pub deadline: u64,
    pub missed_count: u32,
    pub probation: bool,
    pub last_health: Option<HealthReport>,
}

/// What a lease check found.
#[derive(Debug, Clone, Copy, PartialEq, Eq, Structural)]
pub enum LeaseStatus {
    /// The lease is valid.
    Alive,
    /// The lease expired, within the grace period.
    GracePeriod,
    /// The lease expired beyond the grace period, with misses to spare.
    Expired { missed_count: u32 },
    /// The process is declared dead.
    Dead,
    /// There is no lease for this identity.
    Unknown,
}

impl LeaseConfig {
    /// How long a renewed lease lasts.
    pub open spec fn duration(self, probation: bool) -> u64 {
        if probation {
            self.probation_lease_duration
        } else {
            self.lease_duration
        }
    }
}

/// A lease as it is registered at `now`.
pub open spec fn fresh_lease(config: LeaseConfig, now: u64) -> LeaseEntry {
    LeaseEntry {
        deadline: (now + config.lease_duration) as u64,
        missed_count: 0,
        probation: false,
        last_health: None,
    }
}

impl LeaseEntry {
    /// The lease renewed at `now`.
    pub open spec fn renewed(
        self,
        config: LeaseConfig,
        now: u64,
        health: Option<HealthReport>,
    ) -> LeaseEntry {
        LeaseEntry {
            deadline: (now + config.duration(self.probation)) as u64,
            missed_count: 0,
            last_health: health,
            ..self
        }
    }

    /// The lease after a check at `now`.
    pub open spec fn checked(self, now: u64) -> LeaseEntry {
        if now < self.deadline {
            self
        } else {
            LeaseEntry { missed_count: (self.missed_count + 1) as u32, ..self }
        }
    }

    /// What a check at `now` finds.
    pub open spec fn status(self, config: LeaseConfig, now: u64) -> LeaseStatus {
        if now < self.deadline {
            LeaseStatus::Alive
        } else if now < self.deadline + config.grace_period {
            LeaseStatus::GracePeriod
        } else if self.missed_count + 1 >= config.max_renewals_missed {
            LeaseStatus::Dead
        } else {
            LeaseStatus::Expired { missed_count: (self.missed_count + 1) as u32 }
        }
    }

    /// Checks the lease at `now`.
    fn check(&mut self, config: LeaseConfig, now: u64) -> (status: LeaseStatus)
        requires
            old(self).missed_count < u32::MAX,
            old(self).deadline + config.grace_period <= u64::MAX,
        ensures
            *final(self) == old(self).checked(now),
            status == old(self).status(config, now),
    {
        if now < self.deadline {
            return LeaseStatus::Alive;
        }
        self.missed_count = self.missed_count + 1;
        if now < self.deadline + config.grace_period {
            LeaseStatus::GracePeriod
        } else if self.missed_count >= config.max_renewals_missed {
            LeaseStatus::Dead
        } else {
            LeaseStatus::Expired { missed_count: self.missed_count }
        }
    }
}

/// The leases of all peers.
pub struct LeaseManager {
    config: LeaseConfig,
    leases: Table<LeaseEntry>,
}

/// The mathematical state of a `LeaseManager`.
pub ghost struct LeaseState {
    pub config: LeaseConfig,
    pub leases: Map<Seq<char>, LeaseEntry>,
}

impl View for LeaseManager {
    type V = LeaseState;

    closed spec fn view(&self) -> LeaseState {
        LeaseState { config: self.config, leases: self.leases@ }
    }
}

/// What the checks of the given peers at `now` report: every peer that is dead,
/// in order.
pub open spec fn lease_reports(
    keys: Seq<Seq<char>>,
    s: LeaseState,
    now: u64,
) -> Seq<(Seq<char>, LeaseStatus)>
    decreases keys.len(),
{
    if keys.len() == 0 {
        Seq::empty()
    } else {
        let k = keys.last();
        let status = s.leases[k].status(s.config, now);
        let before = lease_reports(keys.drop_last(), s, now);
        if status is Dead {
            before.push((k, status))
        } else {
            before
        }
    }
}

/// Names with a value each.
pub open spec fn named<T>(v: Seq<(String, T)>) -> Seq<(Seq<char>, T)> {
    Seq::new(v.len(), |i: int| (v[i].0@, v[i].1))
}

impl LeaseState {
    /// The lease of `peer` can be checked without its counters overflowing.
    pub open spec fn checkable(self, peer: Seq<char>) -> bool {
        self.leases.contains_key(peer) ==> {
            &&& self.leases[peer].missed_count < u32::MAX
            &&& self.leases[peer].deadline + self.config.grace_period <= u64::MAX
        }
    }

    /// The state after `peer`'s lease was checked at `now`.
    pub open spec fn after_check(self, peer: Seq<char>, now: u64) -> LeaseState {
        if self.leases.contains_key(peer) {
            LeaseState {
                leases: self.leases.insert(peer, self.leases[peer].checked(now)),
                ..self
            }
        } else {
            self
        }
    }
}

impl LeaseManager {
    /// Each peer has one lease.
    pub closed spec fn wf(self) -> bool {
        self.leases.wf()
    }

    /// The peers that have a lease, in the order of their registration.
    pub closed spec fn peers(self) -> Seq<Seq<char>> {
        self.leases.keys()
    }

    /// The peers are those with a lease, each once.
    pub proof fn lemma_peers(self)
        requires
            self.wf(),
        ensures
            self.peers().no_duplicates(),
            forall|k: Seq<char>| #[trigger]
                self@.leases.contains_key(k) <==> self.peers().contains(k),
    {
        self.leases.lemma_keys();
    }

    pub fn new(config: LeaseConfig) -> (m: LeaseManager)
        ensures
            m.wf(),
            m@ == (LeaseState { config, leases: Map::empty() }),
            m.peers() == Seq::<Seq<char>>::empty(),
    {
        LeaseManager { config, leases: Table::new() }
    }

    /// Registers a peer with an initial lease at `now`.
    pub fn register(&mut self, identity: String, now: u64)
        requires
            old(self).wf(),
            now + old(self)@.config.lease_duration <= u64::MAX,
        ensures
            final(self).wf(),
            final(self)@ == (LeaseState {
                leases: old(self)@.leases.insert(
                    identity@,
                    fresh_lease(old(self)@.config, now),
                ),
                ..old(self)@
            }),
    {
        let entry = LeaseEntry {
            deadline: now + self.config.lease_duration,
            missed_count: 0,
            probation: false,
            last_health: None,
        };
        self.leases.insert(identity.as_str(), entry);
    }

    /// Renews a peer's lease at `now` and returns the next deadline in
    /// milliseconds since the UNIX epoch, given the wall clock's reading.
    pub fn renew(
        &mut self,
        identity: &str,
        health: Option<HealthReport>,
        now: u64,
        now_unix: u64,
    ) -> (deadline: Option<u64>)
        requires
            old(self).wf(),
            now + old(self)@.config.lease_duration <= u64::MAX,
            now + old(self)@.config.probation_lease_duration <= u64::MAX,
            now_unix + old(self)@.config.lease_duration <= u64::MAX,
            now_unix + old(self)@.config.probation_lease_duration <= u64::MAX,
        ensures
            final(self).wf(),
            deadline is Some <==> old(self)@.leases.contains_key(identity@),
            deadline is Some ==> {
                let entry = old(self)@.leases[identity@];
                &&& deadline->Some_0 == now_unix + old(self)@.config.duration(entry.probation)
                &&& final(self)@ == (LeaseState {
                    leases: old(self)@.leases.insert(
                        identity@,
                        entry.renewed(old(self)@.config, now, health),
                    ),
                    ..old(self)@
                })
            },
            deadline is None ==> final(self)@ == old(self)@,
            final(self).peers() == old(self).peers(),
    {
        let mut entry = match self.leases.get(identity) {
            Some(e) => *e,
            None => {
                return None;
            },
        };
        let duration: u64 = if entry.probation {
            self.config.probation_lease_duration
        } else {
            self.config.lease_duration
        };
        entry.deadline = now + duration;
        entry.missed_count = 0;
        entry.last_health = health;
        self.leases.insert(identity, entry);
        Some(now_unix + duration)
    }

    /// Drops a peer's lease.
    pub fn remove(&mut self, identity: &str)
        requires
            old(self).wf(),
        ensures
            final(self).wf(),
            final(self)@ == (LeaseState {
                leases: old(self)@.leases.remove(identity@),
                ..old(self)@
            }),
    {
        let _ = self.leases.remove(identity);
    }

    /// Puts a peer on probation, or takes it off.
    pub fn set_probation(&mut self, identity: &str, probation: bool)
        requires
            old(self).wf(),
        ensures
            final(self).wf(),
            final(self)@ == (if old(self)@.leases.contains_key(identity@) {
                LeaseState {
                    leases: old(self)@.leases.insert(
                        identity@,
                        LeaseEntry { probation, ..old(self)@.leases[identity@] },
                    ),
                    ..old(self)@
                }
            } else {
                old(self)@
            }),
    {
        let mut entry = match self.leases.get(identity) {
            Some(e) => *e,
            None => {
                return;
            },
        };
        entry.probation = probation;
        self.leases.insert(identity, entry);
    }

    /// Checks one peer's lease at `now`.
    pub fn check(&mut self, identity: &str, now: u64) -> (status: LeaseStatus)
        requires
            old(self).wf(),
            old(self)@.checkable(identity@),
        ensures
            final(self).wf(),
            final(self)@ == old(self)@.after_check(identity@, now),
            status == (if old(self)@.leases.contains_key(identity@) {
                old(self)@.leases[identity@].status(old(self)@.config, now)
            } else {
                LeaseStatus::Unknown
            }),
    {
        let mut entry = match self.leases.get(identity) {
            Some(e) => *e,
            None => {
                return LeaseStatus::Unknown;
            },
        };
        let status = entry.check(self.config, now);
        self.leases.insert(identity, entry);
        status
    }

    /// Checks all leases at `now` and reports the peers that are dead.
    pub fn check_all(&mut self, now: u64) -> (r: Vec<(String, LeaseStatus)>)
        requires
            old(self).wf(),
            forall|k: Seq<char>| #[trigger] old(self)@.checkable(k),
        ensures
            final(self).wf(),
            final(self)@.config == old(self)@.config,
            final(self).peers() == old(self).peers(),
            final(self)@.leases == old(self)@.leases.map_values(
                |e: LeaseEntry| e.checked(now),
            ),
            named(r@) == lease_reports(old(self).peers(), old(self)@, now),
    {
        let ghost start = self@;
        let ghost keys = self.peers();
        proof {
            self.lemma_peers();
        }
        let mut r: Vec<(String, LeaseStatus)> = Vec::new();
        let mut i: usize = 0;
        let n: usize = self.leases.len();
        proof {
            assert(named(r@) =~= lease_reports(keys.take(0), start, now));
        }
        while i < n
            invariant
                i <= n,
                n == keys.len(),
                self.wf(),
                self.peers() == keys,
                keys.no_duplicates(),
                self@.config == start.config,
                forall|k: Seq<char>| #[trigger] start.checkable(k),
                forall|k: Seq<char>| #[trigger] start.leases.contains_key(k) <==> keys.contains(k),
                forall|k: Seq<char>| #[trigger]
                    self@.leases.contains_key(k) <==> start.leases.contains_key(k),
                forall|j: int|
                    0 <= j < i ==> self@.leases[#[trigger] keys[j]] == start.leases[keys[j]].checked(
                        now,
                    ),
                forall|j: int|
                    i <= j < n ==> self@.leases[#[trigger] keys[j]] == start.leases[keys[j]],
                named(r@) == lease_reports(keys.take(i as int), start, now),
            decreases n - i,
        {
            let key = self.leases.key_at(i).to_owned();
            let mut entry = *self.leases.value_at(i);
            assert(start.checkable(keys[i as int]));
            let status = entry.check(self.config, now);
            self.leases.insert(key.as_str(), entry);
            proof {
                assert(keys.take(i + 1).drop_last() =~= keys.take(i as int));
            }
            if status == LeaseStatus::Dead {
                let ghost before = r@;
                r.push((key, status));
                assert(named(r@) =~= named(before).push((key@, status)));
            }
            i += 1;
        }
        proof {
            assert(keys.take(n as int) =~= keys);
            let m = start.leases.map_values(|e: LeaseEntry| e.checked(now));
            assert forall|k: Seq<char>| #[trigger] self@.leases.contains_key(k) implies m[k]
                == self@.leases[k] by {
                let j = choose|j: int| 0 <= j < keys.len() && keys[j] == k;
                assert(self@.leases[keys[j]] == start.leases[keys[j]].checked(now));
            }
            assert(self@.leases =~= m);
        }
        r
    }

    /// The last health report of a peer.
    pub fn last_health(&self, identity: &str) -> (h: Option<HealthReport>)
        requires
            self.wf(),
        ensures
            h == (if self@.leases.contains_key(identity@) {
                self@.leases[identity@].last_health
            } else {
                None
            }),
    {
        match self.leases.get(identity) {
            Some(e) => e.last_health,
            None => None,
        }
    }
}

/// A lease that was renewed is alive until its deadline, and any misses before
/// the renewal are forgotten.
pub proof fn law_renewed_lease_is_alive(
    entry: LeaseEntry,
    config: LeaseConfig,
    now: u64,
    health: Option<HealthReport>,
    later: u64,
)
    requires
        now <= later < now + config.duration(entry.probation) <= u64::MAX,
    ensures
        entry.renewed(config, now, health).status(config, later) is Alive,
        entry.renewed(config, now, health).missed_count == 0,
{
}

/// Nobody is declared dead before the deadline and the grace period have passed.
pub proof fn law_dead_only_after_grace(entry: LeaseEntry, config: LeaseConfig, now: u64)
    requires
        entry.status(config, now) is Dead,
    ensures
        now >= entry.deadline + config.grace_period,
        entry.missed_count + 1 >= config.max_renewals_missed,
{
}

/// The lease after `n` checks at `now`.
pub open spec fn checked_times(entry: LeaseEntry, now: u64, n: nat) -> LeaseEntry
    decreases n,
{
    if n == 0 {
        entry
    } else {
        checked_times(entry, now, (n - 1) as nat).checked(now)
    }
}

/// A peer that never renews again is declared dead at the latest by the check
/// that makes its misses reach the limit.
pub proof fn law_silent_peer_dies(entry: LeaseEntry, config: LeaseConfig, now: u64, n: nat)
    requires
        now >= entry.deadline + config.grace_period,
        entry.missed_count + n < u32::MAX,
        entry.missed_count + n + 1 >= config.max_renewals_missed,
    ensures
        checked_times(entry, now, n).status(config, now) is Dead,
        checked_times(entry, now, n).deadline == entry.deadline,
        checked_times(entry, now, n).missed_count == entry.missed_count + n,
{
    lemma_checked_times(entry, now, n);
}

proof fn lemma_checked_times(entry: LeaseEntry, now: u64, n: nat)
    requires
        now >= entry.deadline,
        entry.missed_count + n < u32::MAX,
    ensures
        checked_times(entry, now, n) == (LeaseEntry {
            missed_count: (entry.missed_count + n) as u32,
            ..entry
        }),
    decreases n,
{
    if n > 0 {
        lemma_checked_times(entry, now, (n - 1) as nat);
    }
}

/// A check of peers, each given once, reports exactly those that are dead, each
/// once and as dead.
pub proof fn law_the_dead_are_reported_once(keys: Seq<Seq<char>>, s: LeaseState, now: u64)
    requires
        keys.no_duplicates(),
    ensures
        lease_reports(keys, s, now).no_duplicates(),
        forall|k: Seq<char>, status: LeaseStatus| #[trigger]
            lease_reports(keys, s, now).contains((k, status)) <==> keys.contains(k)
                && status is Dead && s.leases[k].status(s.config, now) is Dead,
    decreases keys.len(),
{
    let all = lease_reports(keys, s, now);
    if keys.len() > 0 {
        let d = keys.drop_last();
        let x = keys.last();
        let before = lease_reports(d, s, now);
        law_the_dead_are_reported_once(d, s, now);
        assert(!d.contains(x));
        assert(!before.contains((x, LeaseStatus::Dead)));
        assert forall|k: Seq<char>, status: LeaseStatus| #[trigger]
            all.contains((k, status)) <==> keys.contains(k) && status is Dead && s.leases[k].status(
                s.config,
                now,
            ) is Dead by {
            assert(before.contains((k, status)) ==> all.contains((k, status))) by {
                if before.contains((k, status)) {
                    let i = choose|i: int| 0 <= i < before.len() && before[i] == (k, status);
                    assert(all[i] == (k, status));
                }
            }
            if d.contains(k) {
                let i = choose|i: int| 0 <= i < d.len() && d[i] == k;
                assert(keys[i] == k);
            }
            if keys.contains(k) && k != x {
                let i = choose|i: int| 0 <= i < keys.len() && keys[i] == k;
                assert(d[i] == k);
            }
            if k == x {
                assert(keys[keys.len() - 1] == x);
                if all.len() > before.len() {
                    assert(all[all.len() - 1] == (x, LeaseStatus::Dead));
                }
            }
            if all.contains((k, status)) && !before.contains((k, status)) {
                let i = choose|i: int| 0 <= i < all.len() && all[i] == (k, status);
                if i < before.len() {
                    assert(before[i] == (k, status));
                }
            }
        }
    }
}

/// Checking one peer leaves the leases of all others as they were.
pub proof fn law_check_is_local(s: LeaseState, peer: Seq<char>, other: Seq<char>, now: u64)
    requires
        other != peer,
    ensures
        s.after_check(peer, now).leases.contains_key(other) == s.leases.contains_key(other),
        s.leases.contains_key(other) ==> s.after_check(peer, now).leases[other]
            == s.leases[other],
{
}

/// A lease lasts from now as long as the set-up says, less on probation; a
/// renewal forgets what was missed and keeps the health report.
pub proof fn law_leases_last_as_long_as_set(
    entry: LeaseEntry,
    config: LeaseConfig,
    now: u64,
    health: Option<HealthReport>,
)
    requires
        now + config.lease_duration <= u64::MAX,
        now + config.probation_lease_duration <= u64::MAX,
    ensures
        fresh_lease(config, now).deadline == now + config.lease_duration,
        fresh_lease(config, now).missed_count == 0,
        !fresh_lease(config, now).probation,
        entry.probation ==> entry.renewed(config, now, health).deadline == now
            + config.probation_lease_duration,
        !entry.probation ==> entry.renewed(config, now, health).deadline == now
            + config.lease_duration,
        entry.renewed(config, now, health).missed_count == 0,
        entry.renewed(config, now, health).last_health == health,
        entry.renewed(config, now, health).probation == entry.probation,
{
}

/// A check before the deadline changes nothing and finds the peer alive; a later
/// one counts a miss, and finds it dead only behind the grace period and with
/// the misses used up.
pub proof fn law_checks_follow_the_deadline(entry: LeaseEntry, config: LeaseConfig, now: u64)
    requires
        entry.missed_count < u32::MAX,
    ensures
        now < entry.deadline ==> entry.checked(now) == entry && entry.status(config, now) is Alive,
        now >= entry.deadline ==> {
            &&& entry.checked(now).missed_count == entry.missed_count + 1
            &&& entry.checked(now).deadline == entry.deadline
            &&& entry.checked(now).probation == entry.probation
            &&& entry.status(config, now) is GracePeriod <==> now < entry.deadline
                + config.grace_period
            &&& entry.status(config, now) is Dead <==> now >= entry.deadline + config.grace_period
                && entry.missed_count + 1 >= config.max_renewals_missed
            &&& entry.status(config, now) is Expired ==> entry.status(
                config,
                now,
            )->Expired_missed_count == entry.missed_count + 1
            &&& !(entry.status(config, now) is Alive)
        },
{
}

} // verus!
