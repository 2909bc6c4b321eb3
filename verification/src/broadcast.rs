//! The broadcaster's per-tick decision: one independent loop runs per
//! viewer connection, and on every tick it either pushes a fresh projection
//! of the watched clock or terminates the stream cleanly. The loop itself
//! (the sleep and the outbound write) lives with the connection handling;
//! the decision of what each tick does is here.

use vstd::prelude::*;
use crate::codec::spec_decode;
use crate::snapshot::{Snapshot, spec_project};
use crate::store::ClockStore;

verus! {

/// What one broadcaster tick does: push a snapshot to the viewer, or stop
/// the stream and close the connection.
pub enum BroadcastAction {
    Push(Snapshot),
    Stop,
}

/// Decides one tick of a broadcaster loop watching `code` at time `now`:
/// while the code names a clock, its projection at `now` is pushed; an
/// invalid or unassigned code ends the stream, never the process.
pub fn broadcast_step(store: &ClockStore, code: &str, now: u64) -> (a: BroadcastAction)
    requires
        store.wf(),
    ensures
        match spec_decode(code@) {
            Some(i) => if i < store@.len() {
                a matches BroadcastAction::Push(s) && s@ == spec_project(store@[i as int], now)
            } else {
                a matches BroadcastAction::Stop
            },
            None => a matches BroadcastAction::Stop,
        },
{
    match store.get(code, now) {
        Ok(s) => BroadcastAction::Push(s),
        Err(_) => BroadcastAction::Stop,
    }
}

} // verus!
