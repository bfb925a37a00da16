//! Time controls in milliseconds, the allocation strategies, and a named
//! stopwatch for profiling.

use vstd::prelude::*;
use crate::text::str_eq;
use crate::timing::{instant_now, elapsed_since};

verus! {

/// How much time a game allows.
#[derive(Clone, Copy, PartialEq, Eq, Debug, Structural)]
pub enum TimeControl {
    /// A fixed time per move, in milliseconds.
    FixedTime(u64),
    /// A number of moves in a time, in milliseconds, with an increment per
    /// move, in milliseconds.
    Tournament { moves: u32, time: u64, increment: u64 },
    /// A total time, in milliseconds.
    SuddenDeath(u64),
    /// No limit.
    Unlimited,
}

/// The time a control starts with, in milliseconds (none when unlimited).
pub open spec fn spec_initial_budget(t: TimeControl) -> Option<u64> {
    match t {
        TimeControl::FixedTime(ms) => Some(ms),
        TimeControl::Tournament { time, .. } => Some(time),
        TimeControl::SuddenDeath(ms) => Some(ms),
        TimeControl::Unlimited => None,
    }
}

/// The time added after each move, in milliseconds.
pub open spec fn spec_increment(t: TimeControl) -> u64 {
    match t {
        TimeControl::Tournament { increment, .. } => increment,
        _ => 0,
    }
}

impl TimeControl {
    /// A fixed time per move.
    pub fn fixed(milliseconds: u64) -> (r: Self)
        ensures
            r == TimeControl::FixedTime(milliseconds),
    {
        TimeControl::FixedTime(milliseconds)
    }

    /// A tournament control: `moves` moves in `time_sec` seconds, with
    /// `increment_sec` seconds added per move (held in milliseconds).
    pub fn tournament(moves: u32, time_sec: u64, increment_sec: u64) -> (r: Self)
        requires
            time_sec * 1000 <= u64::MAX,
            increment_sec * 1000 <= u64::MAX,
        ensures
            r == (TimeControl::Tournament { moves, time: (time_sec * 1000) as u64, increment: (increment_sec * 1000) as u64 }),
    {
        TimeControl::Tournament { moves, time: time_sec * 1000, increment: increment_sec * 1000 }
    }

    /// A sudden-death control of `seconds` seconds (held in milliseconds).
    pub fn sudden_death(seconds: u64) -> (r: Self)
        requires
            seconds * 1000 <= u64::MAX,
        ensures
            r == TimeControl::SuddenDeath((seconds * 1000) as u64),
    {
        TimeControl::SuddenDeath(seconds * 1000)
    }

    /// The time the control starts with, in milliseconds.
    pub fn initial_budget(&self) -> (r: Option<u64>)
        ensures
            r == spec_initial_budget(*self),
    {
        match self {
            TimeControl::FixedTime(ms) => Some(*ms),
            TimeControl::Tournament { time, .. } => Some(*time),
            TimeControl::SuddenDeath(ms) => Some(*ms),
            TimeControl::Unlimited => None,
        }
    }

    /// The time added after each move, in milliseconds.
    pub fn increment(&self) -> (r: u64)
        ensures
            r == spec_increment(*self),
    {
        match self {
            TimeControl::Tournament { increment, .. } => *increment,
            _ => 0,
        }
    }
}

/// How time is spread over the moves of a game.
#[derive(Clone, Copy, PartialEq, Eq, Debug, Structural)]
pub enum AllocationStrategy {
    /// The same for each move.
    Equal,
    /// More for later moves.
    Progressive,
    /// More early on.
    Aggressive,
    /// Less than an equal share.
    Conservative,
}

/// The index of the first timer named `name` among the first `n`.
pub open spec fn first_named(starts: Seq<(&'static str, std::time::Instant)>, name: Seq<char>, n: int) -> Option<int>
    decreases n,
{
    if n <= 0 {
        None
    } else {
        match first_named(starts, name, n - 1) {
            Some(i) => Some(i),
            None => if starts[n - 1].0@ == name { Some(n - 1) } else { None },
        }
    }
}

/// Named timers: the ones running, with their start times, and the
/// durations of the ones stopped, in the order they stopped.
pub struct TimeTracker {
    starts: Vec<(&'static str, std::time::Instant)>,
    durations: Vec<(&'static str, std::time::Duration)>,
}

impl TimeTracker {
    /// The running timers, oldest first.
    pub closed spec fn spec_starts(&self) -> Seq<(&'static str, std::time::Instant)> {
        self.starts@
    }

    /// The stopped timers' names and durations.
    pub closed spec fn spec_durations(&self) -> Seq<(&'static str, std::time::Duration)> {
        self.durations@
    }

    /// No timers.
    pub fn new() -> (r: Self)
        ensures
            r.spec_starts().len() == 0,
            r.spec_durations().len() == 0,
    {
        TimeTracker { starts: Vec::new(), durations: Vec::new() }
    }

    /// Starts a timer named `name` (a name may run more than once).
    pub fn start(&mut self, name: &'static str)
        ensures
            final(self).spec_starts().len() == old(self).spec_starts().len() + 1,
            final(self).spec_starts().take(old(self).spec_starts().len() as int) == old(self).spec_starts(),
            final(self).spec_starts().last().0 == name,
            final(self).spec_durations() == old(self).spec_durations(),
    {
        let now = instant_now();
        self.starts.push((name, now));
    }

    /// Stops the oldest running timer named `name`, records its duration
    /// and returns it; `None`, with nothing changed, when no such timer runs.
    pub fn stop(&mut self, name: &'static str) -> (r: Option<std::time::Duration>)
        ensures
            match first_named(old(self).spec_starts(), name@, old(self).spec_starts().len() as int) {
                Some(i) => r is Some
                    && final(self).spec_starts() == old(self).spec_starts().remove(i)
                    && final(self).spec_durations() == old(self).spec_durations().push((name, r.unwrap())),
                None => r is None
                    && final(self).spec_starts() == old(self).spec_starts()
                    && final(self).spec_durations() == old(self).spec_durations(),
            },
    {
        let mut i: usize = 0;
        while i < self.starts.len()
            invariant
                i <= self.starts@.len(),
                self.starts@ == old(self).starts@,
                self.durations@ == old(self).durations@,
                first_named(self.starts@, name@, i as int) is None,
            decreases self.starts@.len() - i,
        {
            if str_eq(self.starts[i].0, name) {
                assert(first_named(self.starts@, name@, i + 1) == Some(i as int));
                proof {
                    lemma_first_named_stays(self.starts@, name@, i + 1, self.starts@.len() as int);
                }
                let (_n, start) = self.starts.remove(i);
                let duration = elapsed_since(&start);
                self.durations.push((name, duration));
                return Some(duration);
            }
            i = i + 1;
        }
        None
    }

    /// The stopped timers' names and durations, in the order they stopped.
    pub fn durations(&self) -> (r: &[(&'static str, std::time::Duration)])
        ensures
            r@ == self.spec_durations(),
    {
        self.durations.as_slice()
    }
}

/// Once the first timer with a name is found, looking further finds the
/// same one.
pub proof fn lemma_first_named_stays(starts: Seq<(&'static str, std::time::Instant)>, name: Seq<char>, n: int, m: int)
    requires
        n <= m,
        first_named(starts, name, n) is Some,
    ensures
        first_named(starts, name, m) == first_named(starts, name, n),
    decreases m - n,
{
    if n < m {
        lemma_first_named_stays(starts, name, n, m - 1);
    }
}

impl Default for TimeTracker {
    fn default() -> (r: Self)
        ensures
            r.spec_starts().len() == 0,
            r.spec_durations().len() == 0,
    {
        Self::new()
    }
}

} // verus!
