//! The per-game clock state machine: players, remaining time, current turn,
//! and lifecycle state, with the fused turn-advance / time-debit transition.

use vstd::prelude::*;

verus! {

/// Lifecycle of a clock: it starts `NotStarted`, begins `Running` on the
/// first hit, and ends `Finished` once a player's time runs out.
#[derive(Clone, Copy, Debug, PartialEq, Eq, Structural)]
pub enum LifecycleState {
    NotStarted,
    Running,
    Finished,
}

/// The mathematical value of a clock.
pub struct ClockView {
    pub code: Seq<char>,
    pub state: LifecycleState,
    pub remaining: Seq<u64>,
    pub names: Seq<Seq<char>>,
    pub current: int,
    pub started_at: u64,
}

impl ClockView {
    /// Well-formedness: the two per-player sequences are parallel and
    /// non-empty, the current player is a valid index, and a finished clock
    /// shows zero time for the player whose time ran out.
    pub open spec fn wf(self) -> bool {
        &&& self.remaining.len() == self.names.len()
        &&& self.remaining.len() >= 1
        &&& 0 <= self.current < self.remaining.len()
        &&& (self.state is Finished ==> self.remaining[self.current] == 0)
    }

    pub open spec fn player_count(self) -> int {
        self.remaining.len() as int
    }
}

/// Elapsed time between the start of the current turn and `now`, clamped to
/// zero when the system clock has been observed to move backwards.
pub open spec fn spec_elapsed(started_at: u64, now: u64) -> u64 {
    if now >= started_at {
        (now - started_at) as u64
    } else {
        0
    }
}

/// The fused turn-advance transition: starting the clock, debiting the
/// elapsed time and passing the turn, expiring, or doing nothing once
/// finished.
pub open spec fn spec_advance(c: ClockView, now: u64) -> ClockView {
    match c.state {
        LifecycleState::NotStarted => ClockView {
            state: LifecycleState::Running,
            started_at: now,
            ..c
        },
        LifecycleState::Running => {
            let e = spec_elapsed(c.started_at, now);
            if e < c.remaining[c.current] {
                ClockView {
                    remaining: c.remaining.update(c.current, (c.remaining[c.current] - e) as u64),
                    current: (c.current + 1) % c.remaining.len() as int,
                    started_at: now,
                    ..c
                }
            } else {
                ClockView {
                    remaining: c.remaining.update(c.current, 0u64),
                    state: LifecycleState::Finished,
                    ..c
                }
            }
        },
        LifecycleState::Finished => c,
    }
}

/// One countdown timer shared by the players of a game.
pub struct Clock {
    pub code: String,
    pub state: LifecycleState,
    pub remaining_ms: Vec<u64>,
    pub player_names: Vec<String>,
    pub current_player: usize,
    pub started_at: u64,
}

impl View for Clock {
    type V = ClockView;

    open spec fn view(&self) -> ClockView {
        ClockView {
            code: self.code@,
            state: self.state,
            remaining: self.remaining_ms@,
            names: Seq::new(self.player_names@.len(), |i: int| self.player_names@[i]@),
            current: self.current_player as int,
            started_at: self.started_at,
        }
    }
}

/// Elapsed time between `started_at` and `now`, clamped to zero when the
/// system clock has moved backwards rather than failing.
pub fn elapsed_since(started_at: u64, now: u64) -> (e: u64)
    ensures
        e == spec_elapsed(started_at, now),
{
    if now >= started_at {
        now - started_at
    } else {
        0
    }
}

impl Clock {
    pub open spec fn wf(&self) -> bool {
        self@.wf()
    }

    /// Ends the active player's turn at time `now`: on the first hit the
    /// clock starts running; while running, the elapsed time is debited to
    /// the current player and the turn passes, or the clock finishes when
    /// the time is used up; a finished clock is left untouched.
    pub fn advance_turn(&mut self, now: u64)
        requires
            old(self).wf(),
        ensures
            final(self)@ == spec_advance(old(self)@, now),
            final(self).wf(),
    {
        match self.state {
            LifecycleState::NotStarted => {
                self.state = LifecycleState::Running;
                self.started_at = now;
            },
            LifecycleState::Running => {
                let e = elapsed_since(self.started_at, now);
                let cur = self.current_player;
                let len = self.remaining_ms.len();
                let rem = self.remaining_ms[cur];
                if e < rem {
                    let slot = &mut self.remaining_ms[cur];
                    *slot = rem - e;
                    self.current_player = (cur + 1) % len;
                    self.started_at = now;
                } else {
                    let slot = &mut self.remaining_ms[cur];
                    *slot = 0;
                    self.state = LifecycleState::Finished;
                }
            },
            LifecycleState::Finished => {},
        }
        assert(self@.names =~= old(self)@.names);
    }

    /// Replaces one player's name, leaving everything else untouched.
    /// The caller is responsible for the bounds check.
    pub fn rename_player(&mut self, position: usize, name: String)
        requires
            old(self).wf(),
            position < old(self)@.names.len(),
        ensures
            final(self)@ == (ClockView { names: old(self)@.names.update(position as int, name@), ..old(self)@ }),
            final(self).wf(),
    {
        let slot = &mut self.player_names[position];
        *slot = name;
        assert(self@.names =~= old(self)@.names.update(position as int, name@));
    }
}

/// The first hit on a clock that has not started only starts it: the state
/// becomes Running and every remaining time, every name and the current
/// player are unchanged.
pub proof fn lemma_first_hit_starts(c: ClockView, now: u64)
    requires
        c.wf(),
        c.state is NotStarted,
    ensures
        spec_advance(c, now).state is Running,
        spec_advance(c, now).remaining == c.remaining,
        spec_advance(c, now).names == c.names,
        spec_advance(c, now).current == c.current,
        spec_advance(c, now).started_at == now,
        spec_advance(c, now).wf(),
{
}

/// A hit on a running clock whose current player still has time left debits
/// exactly the elapsed time to that player, passes the turn to the next
/// player in cyclic order, and touches nothing else.
pub proof fn lemma_hit_debits_and_passes(c: ClockView, now: u64)
    requires
        c.wf(),
        c.state is Running,
        spec_elapsed(c.started_at, now) < c.remaining[c.current],
    ensures
        spec_advance(c, now).state is Running,
        spec_advance(c, now).remaining[c.current] == c.remaining[c.current] - spec_elapsed(
            c.started_at,
            now,
        ),
        forall|i: int|
            0 <= i < c.remaining.len() && i != c.current ==> spec_advance(c, now).remaining[i]
                == c.remaining[i],
        spec_advance(c, now).current == (c.current + 1) % c.player_count(),
        spec_advance(c, now).names == c.names,
        spec_advance(c, now).started_at == now,
        spec_advance(c, now).wf(),
{
}

/// A hit on a running clock whose current player's time has run out zeroes
/// that player's remaining time and finishes the clock: no other remaining
/// time changes, the turn does not pass, and no value goes below zero.
pub proof fn lemma_hit_expires(c: ClockView, now: u64)
    requires
        c.wf(),
        c.state is Running,
        spec_elapsed(c.started_at, now) >= c.remaining[c.current],
    ensures
        spec_advance(c, now).state is Finished,
        spec_advance(c, now).remaining[c.current] == 0,
        forall|i: int|
            0 <= i < c.remaining.len() && i != c.current ==> spec_advance(c, now).remaining[i]
                == c.remaining[i],
        spec_advance(c, now).current == c.current,
        spec_advance(c, now).names == c.names,
        spec_advance(c, now).wf(),
{
}

/// A hit on a finished clock changes nothing at all.
pub proof fn lemma_hit_finished_noop(c: ClockView, now: u64)
    requires
        c.state is Finished,
    ensures
        spec_advance(c, now) == c,
{
}

} // verus!
