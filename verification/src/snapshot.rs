//! Read-only projections of a clock: the stored state as the clients see it,
//! and the lazy decay projection that rolls the active player's remaining
//! time forward to the current instant without mutating the stored clock.

use vstd::prelude::*;
use crate::clock::{Clock, ClockView, LifecycleState, spec_elapsed, elapsed_since};

verus! {

/// A read-only view of one clock, as handed to clients.
pub struct Snapshot {
    pub code: String,
    pub started: bool,
    pub finished: bool,
    pub remaining_ms: Vec<u64>,
    pub player_names: Vec<String>,
    pub current_player: usize,
}

/// The mathematical value of a snapshot.
pub struct SnapshotView {
    pub code: Seq<char>,
    pub started: bool,
    pub finished: bool,
    pub remaining: Seq<u64>,
    pub names: Seq<Seq<char>>,
    pub current: int,
}

impl View for Snapshot {
    type V = SnapshotView;

    open spec fn view(&self) -> SnapshotView {
        SnapshotView {
            code: self.code@,
            started: self.started,
            finished: self.finished,
            remaining: self.remaining_ms@,
            names: Seq::new(self.player_names@.len(), |i: int| self.player_names@[i]@),
            current: self.current_player as int,
        }
    }
}

/// The snapshot that shows a clock's stored state exactly as it is.
pub open spec fn spec_stored(c: ClockView) -> SnapshotView {
    SnapshotView {
        code: c.code,
        started: !(c.state is NotStarted),
        finished: c.state is Finished,
        remaining: c.remaining,
        names: c.names,
        current: c.current,
    }
}

/// The lazy decay projection at time `now`: for a running clock the active
/// player's remaining time is shown reduced by the elapsed time, clamped at
/// zero with the finished flag raised; everything stored stays untouched,
/// and for a clock that is not running the projection is the stored state.
pub open spec fn spec_project(c: ClockView, now: u64) -> SnapshotView {
    if c.state is Running {
        let e = spec_elapsed(c.started_at, now);
        if e < c.remaining[c.current] {
            SnapshotView {
                remaining: c.remaining.update(c.current, (c.remaining[c.current] - e) as u64),
                ..spec_stored(c)
            }
        } else {
            SnapshotView {
                remaining: c.remaining.update(c.current, 0u64),
                finished: true,
                ..spec_stored(c)
            }
        }
    } else {
        spec_stored(c)
    }
}

/// Copies a vector of millisecond counts.
fn copy_times(v: &Vec<u64>) -> (r: Vec<u64>)
    ensures
        r@ == v@,
{
    let mut r: Vec<u64> = Vec::new();
    let mut i: usize = 0;
    while i < v.len()
        invariant
            0 <= i <= v@.len(),
            r@ == v@.subrange(0, i as int),
        decreases v@.len() - i,
    {
        r.push(v[i]);
        assert(r@ =~= v@.subrange(0, i + 1));
        i = i + 1;
    }
    assert(r@ =~= v@);
    r
}

/// Copies a vector of player names.
fn copy_names(v: &Vec<String>) -> (r: Vec<String>)
    ensures
        r@.len() == v@.len(),
        forall|i: int| 0 <= i < v@.len() ==> r@[i]@ == #[trigger] v@[i]@,
{
    let mut r: Vec<String> = Vec::new();
    let mut i: usize = 0;
    while i < v.len()
        invariant
            0 <= i <= v@.len(),
            r@.len() == i,
            forall|j: int| 0 <= j < i ==> r@[j]@ == #[trigger] v@[j]@,
        decreases v@.len() - i,
    {
        r.push(v[i].clone());
        i = i + 1;
    }
    r
}

/// Computes the stored-state snapshot of a clock, without mutating it.
pub fn stored_snapshot(clock: &Clock) -> (s: Snapshot)
    ensures
        s@ == spec_stored(clock@),
{
    let started = match clock.state {
        LifecycleState::NotStarted => false,
        _ => true,
    };
    let finished = match clock.state {
        LifecycleState::Finished => true,
        _ => false,
    };
    let s = Snapshot {
        code: clock.code.clone(),
        started,
        finished,
        remaining_ms: copy_times(&clock.remaining_ms),
        player_names: copy_names(&clock.player_names),
        current_player: clock.current_player,
    };
    assert(s@.names =~= spec_stored(clock@).names);
    s
}

/// Computes the lazy decay projection of a clock at time `now`, without
/// mutating it: repeated calls with increasing `now` and no intervening
/// turn-advance show a non-increasing remaining time for the active player.
pub fn project_snapshot(clock: &Clock, now: u64) -> (s: Snapshot)
    requires
        clock.wf(),
    ensures
        s@ == spec_project(clock@, now),
{
    let mut s = stored_snapshot(clock);
    match clock.state {
        LifecycleState::Running => {
            let e = elapsed_since(clock.started_at, now);
            let cur = clock.current_player;
            let rem = s.remaining_ms[cur];
            if e < rem {
                let slot = &mut s.remaining_ms[cur];
                *slot = rem - e;
            } else {
                let slot = &mut s.remaining_ms[cur];
                *slot = 0;
                s.finished = true;
            }
        },
        _ => {},
    }
    s
}

/// Two projections of one clock, taken at increasing times with no
/// intervening turn-advance, show a non-increasing remaining time for the
/// active player; the stored clock itself is never changed by projecting.
pub proof fn lemma_project_monotonic(c: ClockView, t1: u64, t2: u64)
    requires
        c.wf(),
        t1 <= t2,
    ensures
        spec_project(c, t2).remaining[c.current] <= spec_project(c, t1).remaining[c.current],
        spec_project(c, t1).current == c.current,
        spec_project(c, t2).current == c.current,
{
}

/// Projection changes nothing but the active player's displayed time and
/// the finished flag, and for a clock that is not running it is exactly the
/// stored state.
pub proof fn lemma_project_frame(c: ClockView, now: u64)
    requires
        c.wf(),
    ensures
        spec_project(c, now).code == c.code,
        spec_project(c, now).names == c.names,
        spec_project(c, now).current == c.current,
        spec_project(c, now).started == !(c.state is NotStarted),
        forall|i: int|
            0 <= i < c.remaining.len() && i != c.current ==> spec_project(c, now).remaining[i]
                == c.remaining[i],
        !(c.state is Running) ==> spec_project(c, now) == spec_stored(c),
{
}

} // verus!
