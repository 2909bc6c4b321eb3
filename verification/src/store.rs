//! The clock store: exclusive owner of every clock, the only entity allowed
//! to mutate one. Each operation locates a clock through the public codec
//! and reads or mutates it in one step; exclusivity comes from `&mut`
//! access, so callers sharing a store serialize every operation on it.

use vstd::prelude::*;
use crate::clock::{Clock, ClockView, LifecycleState, spec_advance};
use crate::codec::{spec_encode, spec_decode, encode_index, decode_code, lemma_codec_roundtrip};
use crate::snapshot::{Snapshot, spec_stored, spec_project, stored_snapshot, project_snapshot};

verus! {

/// Why a store operation did not return a snapshot.
#[derive(Clone, Copy, Debug, PartialEq, Eq, Structural)]
pub enum StoreError {
    /// The codec rejects the given code string.
    InvalidCode,
    /// The code decodes to an index that has no clock.
    NotFound,
    /// The player index is outside the clock's range of players.
    OutOfRange,
}

/// The collection of all clocks, addressed by the codes their indices
/// encode to.
pub struct ClockStore {
    clocks: Vec<Clock>,
}

impl View for ClockStore {
    type V = Seq<ClockView>;

    closed spec fn view(&self) -> Seq<ClockView> {
        Seq::new(self.clocks@.len(), |i: int| self.clocks@[i]@)
    }
}

impl ClockStore {
    /// Every clock is well-formed and carries the code of its own index.
    pub open spec fn wf(&self) -> bool {
        forall|i: int|
            0 <= i < self@.len() ==> (#[trigger] self@[i]).wf() && self@[i].code == spec_encode(
                i as u64,
            )
    }

    /// An empty store.
    pub fn new() -> (s: ClockStore)
        ensures
            s@ == Seq::<ClockView>::empty(),
            s.wf(),
    {
        let s = ClockStore { clocks: Vec::new() };
        assert(s@ =~= Seq::<ClockView>::empty());
        s
    }

    /// The clock a freshly created game starts from: every one of the
    /// `player_count` players is allotted `allowed_seconds` of time, the
    /// players carry default generated names, and the clock has not started.
    pub open spec fn spec_new_clock(index: u64, player_count: u32, allowed_seconds: u32) -> ClockView {
        ClockView {
            code: spec_encode(index),
            state: LifecycleState::NotStarted,
            remaining: Seq::new(player_count as nat, |i: int| (allowed_seconds * 1000) as u64),
            names: Seq::new(
                player_count as nat,
                |i: int| "Player "@ + crate::text::spec_decimal(i as nat),
            ),
            current: 0,
            started_at: 0,
        }
    }

    /// Creates a new clock and returns its public code. Always succeeds on
    /// a positive player count and allotment.
    pub fn create(&mut self, player_count: u32, allowed_seconds: u32) -> (code: String)
        requires
            old(self).wf(),
            player_count >= 1,
            allowed_seconds >= 1,
            old(self)@.len() < u64::MAX,
        ensures
            final(self).wf(),
            final(self)@ == old(self)@.push(
                Self::spec_new_clock(old(self)@.len() as u64, player_count, allowed_seconds),
            ),
            code@ == spec_encode(old(self)@.len() as u64),
    {
        let index = self.clocks.len() as u64;
        let code = encode_index(index);
        let per_player: u64 = (allowed_seconds as u64) * 1000;
        let mut remaining_ms: Vec<u64> = Vec::new();
        let mut player_names: Vec<String> = Vec::new();
        let mut i: u32 = 0;
        while i < player_count
            invariant
                0 <= i <= player_count,
                remaining_ms@ == Seq::new(i as nat, |j: int| per_player),
                player_names@.len() == i,
                forall|j: int|
                    0 <= j < i ==> #[trigger] player_names@[j]@ == "Player "@
                        + crate::text::spec_decimal(j as nat),
            decreases player_count - i,
        {
            remaining_ms.push(per_player);
            let mut name = String::from_str("Player ");
            crate::text::push_decimal(&mut name, i as u64);
            player_names.push(name);
            assert(remaining_ms@ =~= Seq::new((i + 1) as nat, |j: int| per_player));
            i = i + 1;
        }
        let clock = Clock {
            code: code.clone(),
            state: LifecycleState::NotStarted,
            remaining_ms,
            player_names,
            current_player: 0,
            started_at: 0,
        };
        proof {
            let c = Self::spec_new_clock(index, player_count, allowed_seconds);
            assert(clock@.remaining =~= c.remaining);
            assert(clock@.names =~= c.names);
            assert(clock@ == c);
        }
        self.clocks.push(clock);
        proof {
            assert(self@ =~= old(self)@.push(
                Self::spec_new_clock(old(self)@.len() as u64, player_count, allowed_seconds),
            ));
            let n = old(self)@.len();
            assert forall|k: int| 0 <= k < self@.len() implies (#[trigger] self@[k]).wf()
                && self@[k].code == spec_encode(k as u64) by {
                if k < n {
                    assert(old(self)@[k].wf() && old(self)@[k].code == spec_encode(k as u64));
                }
            }
        }
        code
    }

    /// Looks a clock up by its code and returns the lazy decay projection at
    /// time `now`, mutating nothing: an undecodable code is rejected as
    /// `InvalidCode`, a decodable one whose index has no clock as `NotFound`.
    pub fn get(&self, code: &str, now: u64) -> (r: Result<Snapshot, StoreError>)
        requires
            self.wf(),
        ensures
            match spec_decode(code@) {
                Some(i) => if i < self@.len() {
                    r matches Ok(s) && s@ == spec_project(self@[i as int], now)
                } else {
                    r matches Err(e) && e == StoreError::NotFound
                },
                None => r matches Err(e) && e == StoreError::InvalidCode,
            },
            forall|i: u64|
                code@ == spec_encode(i) && i < self@.len() ==> (r matches Ok(s) && s@
                    == spec_project(self@[i as int], now)),
    {
        proof {
            assert forall|i: u64| code@ == spec_encode(i) implies spec_decode(code@) == Some(i) by {
                lemma_codec_roundtrip(i);
            }
        }
        match decode_code(code) {
            None => Err(StoreError::InvalidCode),
            Some(index) => {
                if index < self.clocks.len() as u64 {
                    let i = index as usize;
                    assert(self.clocks@[i as int]@ == self@[i as int]);
                    assert(self@[i as int].wf());
                    Ok(project_snapshot(&self.clocks[i], now))
                } else {
                    Err(StoreError::NotFound)
                }
            },
        }
    }

    /// Looks a clock up by its code and ends the active player's turn at
    /// time `now` in one exclusive step, returning the now-authoritative
    /// stored state. No other clock and nothing else in the store changes.
    pub fn hit(&mut self, code: &str, now: u64) -> (r: Result<Snapshot, StoreError>)
        requires
            old(self).wf(),
        ensures
            final(self).wf(),
            match spec_decode(code@) {
                Some(i) => if i < old(self)@.len() {
                    final(self)@ == old(self)@.update(
                        i as int,
                        spec_advance(old(self)@[i as int], now),
                    ) && (r matches Ok(s) && s@ == spec_stored(final(self)@[i as int]))
                } else {
                    final(self)@ == old(self)@ && (r matches Err(e) && e == StoreError::NotFound)
                },
                None => final(self)@ == old(self)@ && (r matches Err(e) && e
                    == StoreError::InvalidCode),
            },
            forall|i: u64|
                code@ == spec_encode(i) && i < old(self)@.len() ==> final(self)@ == old(self)@
                    .update(i as int, spec_advance(old(self)@[i as int], now)),
    {
        proof {
            assert forall|i: u64| code@ == spec_encode(i) implies spec_decode(code@) == Some(i) by {
                lemma_codec_roundtrip(i);
            }
        }
        match decode_code(code) {
            None => {
                assert(self@ =~= old(self)@);
                Err(StoreError::InvalidCode)
            },
            Some(index) => {
                if index < self.clocks.len() as u64 {
                    let i = index as usize;
                    let clock = &mut self.clocks[i];
                    clock.advance_turn(now);
                    proof {
                        assert(self@ =~= old(self)@.update(
                            i as int,
                            spec_advance(old(self)@[i as int], now),
                        ));
                    }
                    Ok(stored_snapshot(&self.clocks[i]))
                } else {
                    assert(self@ =~= old(self)@);
                    Err(StoreError::NotFound)
                }
            },
        }
    }

    /// Looks a clock up by its code and replaces the name of the player at
    /// `position`, leaving every remaining time, the turn and the lifecycle
    /// state untouched; an out-of-range position changes nothing and is
    /// rejected as `OutOfRange`.
    pub fn rename(&mut self, code: &str, position: usize, name: String) -> (r: Result<
        Snapshot,
        StoreError,
    >)
        requires
            old(self).wf(),
        ensures
            final(self).wf(),
            match spec_decode(code@) {
                Some(i) => if i < old(self)@.len() {
                    if position < old(self)@[i as int].names.len() {
                        final(self)@ == old(self)@.update(
                            i as int,
                            ClockView {
                                names: old(self)@[i as int].names.update(position as int, name@),
                                ..old(self)@[i as int]
                            },
                        ) && (r matches Ok(s) && s@ == spec_stored(final(self)@[i as int]))
                    } else {
                        final(self)@ == old(self)@ && (r matches Err(e) && e
                            == StoreError::OutOfRange)
                    }
                } else {
                    final(self)@ == old(self)@ && (r matches Err(e) && e == StoreError::NotFound)
                },
                None => final(self)@ == old(self)@ && (r matches Err(e) && e
                    == StoreError::InvalidCode),
            },
    {
        match decode_code(code) {
            None => {
                assert(self@ =~= old(self)@);
                Err(StoreError::InvalidCode)
            },
            Some(index) => {
                if index < self.clocks.len() as u64 {
                    let i = index as usize;
                    if position < self.clocks[i].player_names.len() {
                        let clock = &mut self.clocks[i];
                        clock.rename_player(position, name);
                        proof {
                            assert(self@ =~= old(self)@.update(
                                i as int,
                                ClockView {
                                    names: old(self)@[i as int].names.update(
                                        position as int,
                                        name@,
                                    ),
                                    ..old(self)@[i as int]
                                },
                            ));
                        }
                        Ok(stored_snapshot(&self.clocks[i]))
                    } else {
                        assert(self@ =~= old(self)@);
                        Err(StoreError::OutOfRange)
                    }
                } else {
                    assert(self@ =~= old(self)@);
                    Err(StoreError::NotFound)
                }
            },
        }
    }

    /// The number of clocks the store holds.
    pub fn len(&self) -> (n: usize)
        ensures
            n == self@.len(),
    {
        self.clocks.len()
    }
}

} // verus!
