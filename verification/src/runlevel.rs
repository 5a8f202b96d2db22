//! Runlevel state machine: the system run levels and the transitions between them.

use crate::scan::{contains_text, law_parts_are_found};
use vstd::prelude::*;
use vstd::string::*;

verus! {

/// System run levels, from halted to self-modifying.
#[derive(Debug, Clone, Copy, PartialEq, Eq, Hash, Structural)]
pub enum Runlevel {
    /// Level 0: system halted.
    Halt,
    /// Level 1: safe mode, core agent only.
    Safe,
    /// Level 2: normal operation, the default.
    Normal,
    /// Level 3: evolution mode, self-modification allowed.
    Evolve,
}

impl Runlevel {
    /// The number of a level.
    pub open spec fn number(self) -> u8 {
        match self {
            Runlevel::Halt => 0,
            Runlevel::Safe => 1,
            Runlevel::Normal => 2,
            Runlevel::Evolve => 3,
        }
    }

    /// The level with a number.
    pub open spec fn of_number(n: u8) -> Option<Runlevel> {
        if n == 0 {
            Some(Runlevel::Halt)
        } else if n == 1 {
            Some(Runlevel::Safe)
        } else if n == 2 {
            Some(Runlevel::Normal)
        } else if n == 3 {
            Some(Runlevel::Evolve)
        } else {
            None
        }
    }

    /// The name of a level.
    pub open spec fn spec_name(self) -> Seq<char> {
        match self {
            Runlevel::Halt => "Halt"@,
            Runlevel::Safe => "Safe"@,
            Runlevel::Normal => "Normal"@,
            Runlevel::Evolve => "Evolve"@,
        }
    }

    pub fn as_u8(self) -> (n: u8)
        ensures
            n == self.number(),
    {
        match self {
            Runlevel::Halt => 0,
            Runlevel::Safe => 1,
            Runlevel::Normal => 2,
            Runlevel::Evolve => 3,
        }
    }

    pub fn from_u8(v: u8) -> (level: Option<Runlevel>)
        ensures
            level == Runlevel::of_number(v),
    {
        match v {
            0 => Some(Runlevel::Halt),
            1 => Some(Runlevel::Safe),
            2 => Some(Runlevel::Normal),
            3 => Some(Runlevel::Evolve),
            _ => None,
        }
    }

    pub fn allows_evolution(self) -> (b: bool)
        ensures
            b <==> self is Evolve,
    {
        self == Runlevel::Evolve
    }

    pub fn is_restricted(self) -> (b: bool)
        ensures
            b <==> self is Safe || self is Halt,
    {
        self == Runlevel::Safe || self == Runlevel::Halt
    }

    /// The level's name, as shown in messages.
    pub fn name(self) -> (s: &'static str)
        ensures
            s@ == self.spec_name(),
    {
        match self {
            Runlevel::Halt => "Halt",
            Runlevel::Safe => "Safe",
            Runlevel::Normal => "Normal",
            Runlevel::Evolve => "Evolve",
        }
    }
}

/// The reason for a runlevel transition.
#[derive(Debug, Clone)]
pub struct TransitionReason {
    pub description: String,
    pub automatic: bool,
}

/// The transitions that the state machine allows: any level may halt, safe and
/// evolve go back to normal, normal goes to safe or evolve, evolve may fall to safe.
pub open spec fn valid_transition(from: Runlevel, to: Runlevel) -> bool {
    match to {
        Runlevel::Halt => true,
        Runlevel::Safe => from is Normal || from is Evolve,
        Runlevel::Normal => from is Safe || from is Evolve,
        Runlevel::Evolve => from is Normal,
    }
}

/// Whether a transition from `from` to `to` is allowed.
pub fn is_valid_transition(from: Runlevel, to: Runlevel) -> (b: bool)
    ensures
        b == valid_transition(from, to),
{
    match (from, to) {
        (_, Runlevel::Halt) => true,
        (Runlevel::Safe, Runlevel::Normal) => true,
        (Runlevel::Normal, Runlevel::Safe) => true,
        (Runlevel::Normal, Runlevel::Evolve) => true,
        (Runlevel::Evolve, Runlevel::Normal) => true,
        (Runlevel::Evolve, Runlevel::Safe) => true,
        _ => false,
    }
}

/// Consecutive crashes after which safe mode is suggested.
pub const CRASH_THRESHOLD_FOR_SAFE: u32 = 2;

/// The current runlevel and the crashes since the last return to normal.
pub struct RunlevelManager {
    current: Runlevel,
    consecutive_crashes: u32,
}

/// The mathematical state of a `RunlevelManager`.
pub ghost struct RunlevelState {
    pub level: Runlevel,
    pub crashes: nat,
}

impl View for RunlevelManager {
    type V = RunlevelState;

    closed spec fn view(&self) -> RunlevelState {
        RunlevelState { level: self.current, crashes: self.consecutive_crashes as nat }
    }
}

impl RunlevelState {
    /// The state after an attempted transition to `to`.
    pub open spec fn moved_to(self, to: Runlevel) -> RunlevelState {
        if self.level == to || !valid_transition(self.level, to) {
            self
        } else {
            RunlevelState { level: to, crashes: if to is Normal { 0 } else { self.crashes } }
        }
    }

    /// The state after one more crash.
    pub open spec fn crashed(self) -> RunlevelState {
        RunlevelState { crashes: self.crashes + 1, ..self }
    }
}

/// The message of a refused transition.
pub open spec fn transition_error(from: Runlevel, to: Runlevel, reason: Seq<char>) -> Seq<char> {
    "Invalid runlevel transition: "@ + from.spec_name() + " → "@ + to.spec_name() + " (reason: "@
        + reason + ")"@
}

impl RunlevelManager {
    pub fn new() -> (m: RunlevelManager)
        ensures
            m@ == (RunlevelState { level: Runlevel::Normal, crashes: 0 }),
    {
        RunlevelManager { current: Runlevel::Normal, consecutive_crashes: 0 }
    }

    pub fn current(&self) -> (level: Runlevel)
        ensures
            level == self@.level,
    {
        self.current
    }

    /// Attempts a transition and returns the level that was left. Staying on
    /// the current level always succeeds and changes nothing.
    pub fn transition(&mut self, to: Runlevel, reason: TransitionReason) -> (r: Result<
        Runlevel,
        String,
    >)
        ensures
            final(self)@ == old(self)@.moved_to(to),
            r is Ok <==> old(self)@.level == to || valid_transition(old(self)@.level, to),
            r is Ok ==> r->Ok_0 == old(self)@.level,
            r is Err ==> r->Err_0@ == transition_error(
                old(self)@.level,
                to,
                reason.description@,
            ),
    {
        if self.current == to {
            return Ok(self.current);
        }
        if !is_valid_transition(self.current, to) {
            let mut m = String::from_str("Invalid runlevel transition: ");
            m.append(self.current.name());
            m.append(" → ");
            m.append(to.name());
            m.append(" (reason: ");
            m.append(reason.description.as_str());
            m.append(")");
            return Err(m);
        }
        let from = self.current;
        self.current = to;
        if to == Runlevel::Normal {
            self.consecutive_crashes = 0;
        }
        Ok(from)
    }

    /// Records a crash. Suggests safe mode once normal operation has crashed
    /// often enough in a row.
    pub fn record_crash(&mut self) -> (suggestion: Option<Runlevel>)
        requires
            old(self)@.crashes < u32::MAX,
        ensures
            final(self)@ == old(self)@.crashed(),
            suggestion == if final(self)@.crashes >= CRASH_THRESHOLD_FOR_SAFE
                && final(self)@.level is Normal {
                Some(Runlevel::Safe)
            } else {
                None
            },
    {
        self.consecutive_crashes += 1;
        if self.consecutive_crashes >= CRASH_THRESHOLD_FOR_SAFE && self.current == Runlevel::Normal
        {
            Some(Runlevel::Safe)
        } else {
            None
        }
    }

    pub fn consecutive_crashes(&self) -> (n: u32)
        ensures
            n == self@.crashes,
    {
        self.consecutive_crashes
    }

    /// Whether evolve mode may be entered, given whether the average CPU usage
    /// lies below the evolve threshold.
    pub fn can_enter_evolve(&self, cpu_below_threshold: bool) -> (b: bool)
        ensures
            b <==> self@.level is Normal && cpu_below_threshold,
    {
        self.current == Runlevel::Normal && cpu_below_threshold
    }

    /// Whether evolve mode must be left, given whether the average CPU usage
    /// lies below the evolve threshold.
    pub fn should_exit_evolve(&self, cpu_below_threshold: bool) -> (b: bool)
        ensures
            b <==> self@.level is Evolve && !cpu_below_threshold,
    {
        self.current == Runlevel::Evolve && !cpu_below_threshold
    }
}

/// Reading back a level's number gives the level, and a number that names no
/// level is above the last one.
pub proof fn law_runlevel_numbers(level: Runlevel, n: u8)
    ensures
        Runlevel::of_number(level.number()) == Some(level),
        Runlevel::of_number(n) is Some ==> Runlevel::of_number(n)->Some_0.number() == n,
        Runlevel::of_number(n) is None <==> n > 3,
{
}

/// A halted system never leaves the halt level.
pub proof fn law_halt_is_terminal(s: RunlevelState, to: Runlevel)
    requires
        s.level is Halt,
    ensures
        s.moved_to(to) == s,
{
}

/// Self-modification is only ever entered from normal operation: a safe
/// system has to pass through normal first.
pub proof fn law_evolve_only_from_normal(s: RunlevelState, to: Runlevel)
    requires
        !(s.level is Evolve),
        s.moved_to(to).level is Evolve,
    ensures
        s.level is Normal,
{
}

/// Whatever the state, a transition to halt is carried out.
pub proof fn law_halt_always_reachable(s: RunlevelState)
    ensures
        s.moved_to(Runlevel::Halt).level is Halt,
{
}

/// Crashes are forgotten on the way back to normal, and only there.
pub proof fn law_crashes_reset_only_by_normal(s: RunlevelState, to: Runlevel)
    ensures
        s.moved_to(to).crashes == s.crashes || (s.moved_to(to).crashes == 0 && to is Normal
            && !(s.level is Normal)),
        s.level != to && valid_transition(s.level, to) && to is Normal ==> s.moved_to(to).crashes
            == 0,
{
}

/// Normal operation, evolution and safe mode lead to one another, but from safe
/// mode only normal operation can be entered; any of them can be halted, and
/// nothing leads out of a halt.
pub proof fn law_levels_lead_to_one_another(from: Runlevel)
    ensures
        valid_transition(from, Runlevel::Halt),
        valid_transition(Runlevel::Safe, Runlevel::Normal),
        valid_transition(Runlevel::Normal, Runlevel::Safe),
        valid_transition(Runlevel::Normal, Runlevel::Evolve),
        valid_transition(Runlevel::Evolve, Runlevel::Normal),
        valid_transition(Runlevel::Evolve, Runlevel::Safe),
        !valid_transition(Runlevel::Safe, Runlevel::Evolve),
        !valid_transition(Runlevel::Halt, Runlevel::Safe),
        !valid_transition(Runlevel::Halt, Runlevel::Normal),
        !valid_transition(Runlevel::Halt, Runlevel::Evolve),
        !(from is Halt) ==> !valid_transition(from, from),
{
}

/// A transition that is allowed is carried out, any other leaves the level.
pub proof fn law_allowed_transitions_are_carried_out(s: RunlevelState, to: Runlevel)
    ensures
        valid_transition(s.level, to) ==> s.moved_to(to).level == to,
        !valid_transition(s.level, to) ==> s.moved_to(to) == s,
        s.crashed().level == s.level,
        s.crashed().crashes == s.crashes + 1,
{
}

/// The message of a refused transition names both levels and the reason.
pub proof fn law_refused_transitions_are_explained(
    from: Runlevel,
    to: Runlevel,
    reason: Seq<char>,
)
    ensures
        contains_text(transition_error(from, to, reason), from.spec_name() + " → "@ + to.spec_name()),
        contains_text(transition_error(from, to, reason), reason),
{
    let e = transition_error(from, to, reason);
    let head = "Invalid runlevel transition: "@;
    let pair = from.spec_name() + " → "@ + to.spec_name();
    let tail = " (reason: "@ + reason + ")"@;
    assert(e =~= head + pair + tail);
    law_parts_are_found(head, pair, tail, e);
    assert(e =~= (head + pair + " (reason: "@) + reason + ")"@);
    law_parts_are_found(head + pair + " (reason: "@, reason, ")"@, e);
}

/// Levels are told apart by their names.
pub proof fn law_levels_have_names_of_their_own(a: Runlevel, b: Runlevel)
    ensures
        a.spec_name() == b.spec_name() ==> a == b,
{
    reveal_strlit("Halt");
    reveal_strlit("Safe");
    reveal_strlit("Normal");
    reveal_strlit("Evolve");
    assert("Halt"@.len() == 4);
    assert("Safe"@.len() == 4);
    assert("Normal"@.len() == 6);
    assert("Evolve"@.len() == 6);
    assert("Halt"@[0] == 'H');
    assert("Safe"@[0] == 'S');
    assert("Normal"@[0] == 'N');
    assert("Evolve"@[0] == 'E');
}

/// A level admits self-modification only where it may be entered from normal
/// operation alone, and restricts exactly where it is below normal.
pub proof fn law_levels_restrict_in_order(level: Runlevel, evolves: bool, restricted: bool)
    requires
        call_ensures(Runlevel::allows_evolution, (level,), evolves),
        call_ensures(Runlevel::is_restricted, (level,), restricted),
    ensures
        evolves <==> level.number() > Runlevel::Normal.number(),
        restricted <==> level.number() < Runlevel::Normal.number(),
{
}

/// Evolve mode is entered only from normal operation and left only from itself,
/// and no CPU usage asks for both.
pub proof fn law_cpu_usage_decides_on_evolution(
    m: RunlevelManager,
    below: bool,
    enter: bool,
    leave: bool,
)
    requires
        call_ensures(RunlevelManager::can_enter_evolve, (&m, below), enter),
        call_ensures(RunlevelManager::should_exit_evolve, (&m, below), leave),
    ensures
        enter <==> below && m@.level is Normal,
        leave <==> !below && m@.level is Evolve,
        !(enter && leave),
{
}

} // verus!
