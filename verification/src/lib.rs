//! A shared countdown-timer service for turn-based games: several players
//! share one clock, only the active player's time elapses, and ending a
//! turn debits the elapsed time and passes the turn in one step. The store
//! owns every clock and serializes access to it; read-only projections roll
//! the active player's remaining time forward for live viewers without
//! touching the stored state.

pub mod broadcast;
pub mod clock;
pub mod codec;
pub mod path;
pub mod snapshot;
pub mod store;
pub mod text;
